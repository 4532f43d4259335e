//! The orchestration reducer: all application state, one action at a
//! time, no I/O inline. `spec_reduce` is the transition relation;
//! `App::apply` is proved equal to it.

use vstd::prelude::*;

use crate::action::{effects_view, Action, ActionV, Effect, EffectV, Key};
use crate::chars::{
    contains_ci, lemma_lex_le_total, lemma_lex_le_trans, spec_contains_ci, spec_lex_le, str_lex_le,
};
use crate::chars::{pop_char, push_char, spec_pop};
use crate::connection::{spec_socket_path, ConnV, ConnectionManager};
use crate::history::{
    spec_record_connection, spec_saved_tunnels, spec_store_tunnels, History, HistoryEntryV,
};
use crate::modal::{
    spec_fresh_modal, spec_modal_backspace, spec_modal_input, spec_modal_validate, spec_port_busy,
    AddModalState, ModalV,
};
use crate::settings::{AppConfig, ConfigV};
use crate::sshconfig::{clone_host, HostV, SshHost};
use crate::tunnel::{tunnels_view, SavedTunnel, SavedTunnelV, Tunnel, TunnelV};

verus! {

/// Which of the two main panels currently has keyboard focus.
#[derive(Debug, Clone, Copy, PartialEq, Eq, Structural)]
pub enum Panel {
    Hosts,
    Tunnels,
}

/// The externally visible summary of session state. Exactly one value is
/// current at any time.
#[derive(Debug, Clone)]
pub enum ConnectionStatus {
    Disconnected,
    Connecting,
    Connected(String),
    Error(String),
}

/// Mathematical image of a `ConnectionStatus`.
#[verifier::ext_equal]
pub enum StatusV {
    Disconnected,
    Connecting,
    Connected(Seq<char>),
    Error(Seq<char>),
}

impl View for ConnectionStatus {
    type V = StatusV;

    open spec fn view(&self) -> StatusV {
        match self {
            ConnectionStatus::Disconnected => StatusV::Disconnected,
            ConnectionStatus::Connecting => StatusV::Connecting,
            ConnectionStatus::Connected(s) => StatusV::Connected(s@),
            ConnectionStatus::Error(s) => StatusV::Error(s@),
        }
    }
}

/// How loud a transient notification is.
#[derive(Debug, Clone, Copy, PartialEq, Eq, Structural)]
pub enum NotificationLevel {
    Success,
    Error,
    Info,
}

/// A transient, time-limited status message.
#[derive(Debug, Clone)]
pub struct Notification {
    pub message: String,
    pub level: NotificationLevel,
}

/// Mathematical image of a `Notification`.
#[verifier::ext_equal]
pub struct NotificationV {
    pub message: Seq<char>,
    pub level: NotificationLevel,
}

impl View for Notification {
    type V = NotificationV;

    open spec fn view(&self) -> NotificationV {
        NotificationV { message: self.message@, level: self.level }
    }
}

/// All application state. Only the reducer mutates it, one action at a
/// time; every I/O-bearing transition instead returns effects that carry
/// frozen snapshots.
pub struct App {
    pub running: bool,
    pub hosts: Vec<SshHost>,
    pub host_selected: Option<usize>,
    pub active_panel: Panel,
    pub search_query: String,
    pub search_mode: bool,
    pub filtered_host_indices: Vec<usize>,
    pub show_help: bool,
    pub connection: Option<ConnectionManager>,
    pub connection_status: ConnectionStatus,
    pub socket_dir: String,
    pub tick_count: u32,
    pub tunnels: Vec<Tunnel>,
    pub tunnel_selected: Option<usize>,
    pub add_modal: Option<AddModalState>,
    pub config: AppConfig,
    pub history: History,
    pub notification: Option<Notification>,
    pub notification_ticks: u32,
    pub next_tunnel_id: u64,
}

/// Mathematical image of the whole application state.
#[verifier::ext_equal]
pub struct AppV {
    pub running: bool,
    pub hosts: Seq<HostV>,
    pub host_selected: Option<usize>,
    pub active_panel: Panel,
    pub search_query: Seq<char>,
    pub search_mode: bool,
    pub filtered_host_indices: Seq<usize>,
    pub show_help: bool,
    pub connection: Option<ConnV>,
    pub connection_status: StatusV,
    pub socket_dir: Seq<char>,
    pub tick_count: u32,
    pub tunnels: Seq<TunnelV>,
    pub tunnel_selected: Option<usize>,
    pub add_modal: Option<ModalV>,
    pub config: ConfigV,
    pub history: Seq<HistoryEntryV>,
    pub notification: Option<NotificationV>,
    pub notification_ticks: u32,
    pub next_tunnel_id: u64,
}

impl View for App {
    type V = AppV;

    open spec fn view(&self) -> AppV {
        AppV {
            running: self.running,
            hosts: self.hosts@.map_values(|h: SshHost| h@),
            host_selected: self.host_selected,
            active_panel: self.active_panel,
            search_query: self.search_query@,
            search_mode: self.search_mode,
            filtered_host_indices: self.filtered_host_indices@,
            show_help: self.show_help,
            connection: match &self.connection {
                Some(c) => Some(c@),
                None => None,
            },
            connection_status: self.connection_status@,
            socket_dir: self.socket_dir@,
            tick_count: self.tick_count,
            tunnels: tunnels_view(self.tunnels@),
            tunnel_selected: self.tunnel_selected,
            add_modal: match &self.add_modal {
                Some(m) => Some(m@),
                None => None,
            },
            config: self.config@,
            history: self.history@,
            notification: match &self.notification {
                Some(n) => Some(n@),
                None => None,
            },
            notification_ticks: self.notification_ticks,
            next_tunnel_id: self.next_tunnel_id,
        }
    }
}

impl AppV {
    /// State well-formedness: tunnel identities are unique and below the
    /// allocator's next value; selections point into their lists; filtered
    /// indices point into the host list; history keeps one record per name.
    pub open spec fn wf(self) -> bool {
        &&& (forall|i: int, j: int|
            0 <= i < j < self.tunnels.len() ==> self.tunnels[i].id != self.tunnels[j].id)
        &&& (forall|i: int|
            0 <= i < self.tunnels.len() ==> #[trigger] self.tunnels[i].id < self.next_tunnel_id)
        &&& (match self.tunnel_selected {
            Some(k) => (k as int) < self.tunnels.len(),
            None => true,
        })
        &&& (match self.host_selected {
            Some(k) => (k as int) < self.filtered_host_indices.len(),
            None => true,
        })
        &&& (forall|i: int|
            0 <= i < self.filtered_host_indices.len()
                ==> (#[trigger] self.filtered_host_indices[i] as int) < self.hosts.len())
        &&& self.filtered_host_indices.len() <= self.hosts.len()
        &&& (forall|i: int, j: int|
            0 <= i < j < self.history.len() ==> self.history[i].name != self.history[j].name)
    }
}

// ---------- pure pieces of the transition relation ----------

/// A host matches a search query when its name or explicit hostname
/// contains it, case-insensitively.
pub open spec fn spec_host_matches(h: HostV, q: Seq<char>) -> bool {
    spec_contains_ci(h.name, q) || (h.hostname matches Some(hn) && spec_contains_ci(hn, q))
}

pub open spec fn spec_filtered_rec(hosts: Seq<HostV>, q: Seq<char>, i: int) -> Seq<usize>
    decreases hosts.len() - i,
    when 0 <= i <= hosts.len()
{
    if i == hosts.len() {
        Seq::empty()
    } else {
        let rest = spec_filtered_rec(hosts, q, i + 1);
        if spec_host_matches(hosts[i], q) {
            seq![i as usize] + rest
        } else {
            rest
        }
    }
}

/// The indices of the hosts that a query keeps visible; an empty query
/// keeps them all.
pub open spec fn spec_filtered(hosts: Seq<HostV>, q: Seq<char>) -> Seq<usize> {
    if q.len() == 0 {
        Seq::new(hosts.len(), |i: int| i as usize)
    } else {
        spec_filtered_rec(hosts, q, 0)
    }
}

/// Select the first entry when there is one.
pub open spec fn spec_select_first(filtered: Seq<usize>) -> Option<usize> {
    if filtered.len() > 0 {
        Some(0usize)
    } else {
        None
    }
}

/// The state with a fresh transient notification.
pub open spec fn with_note(a: AppV, msg: Seq<char>, level: NotificationLevel) -> AppV {
    AppV {
        notification: Some(NotificationV { message: msg, level }),
        notification_ticks: 0,
        ..a
    }
}

/// Index of the first tunnel with this identity, or the registry length.
pub open spec fn spec_find_tunnel(ts: Seq<TunnelV>, id: u64) -> int
    decreases ts.len(),
{
    if ts.len() == 0 {
        0
    } else if ts[0].id == id {
        0
    } else {
        1 + spec_find_tunnel(ts.skip(1), id)
    }
}

pub open spec fn spec_has_tunnel(ts: Seq<TunnelV>, id: u64) -> bool {
    spec_find_tunnel(ts, id) < ts.len()
}

/// The registry without the tunnels of this identity.
pub open spec fn spec_remove_tunnel(ts: Seq<TunnelV>, id: u64) -> Seq<TunnelV>
    decreases ts.len(),
{
    if ts.len() == 0 {
        Seq::empty()
    } else {
        let rest = spec_remove_tunnel(ts.skip(1), id);
        if ts[0].id == id {
            rest
        } else {
            seq![ts[0]] + rest
        }
    }
}

/// Where the tunnel selection lands after the registry shrank.
pub open spec fn spec_fix_selection(sel: Option<usize>, len: nat) -> Option<usize> {
    if len == 0 {
        None
    } else {
        match sel {
            Some(s) => if s as nat >= len {
                Some((len - 1) as usize)
            } else {
                Some(s)
            },
            None => None,
        }
    }
}

/// A restored tunnel: fresh identity, saved spec, disabled.
pub open spec fn spec_tunnel_from_saved(id: u64, st: SavedTunnelV, now: i64) -> TunnelV {
    TunnelV {
        id,
        local_port: st.local_port,
        remote_host: st.remote_host,
        remote_port: st.remote_port,
        enabled: false,
        created_at: now,
    }
}

/// Append one disabled tunnel per saved spec, allocating identities in
/// order; specs are dropped once the identity space is exhausted.
pub open spec fn spec_load_saved(
    ts: Seq<TunnelV>,
    saved: Seq<SavedTunnelV>,
    next: u64,
    now: i64,
) -> (Seq<TunnelV>, u64)
    decreases saved.len(),
{
    if saved.len() == 0 {
        (ts, next)
    } else if next < u64::MAX {
        spec_load_saved(
            ts.push(spec_tunnel_from_saved(next, saved[0], now)),
            saved.skip(1),
            (next + 1) as u64,
            now,
        )
    } else {
        spec_load_saved(ts, saved.skip(1), next, now)
    }
}

/// Like `spec_load_saved`, and additionally one enable request per
/// restored tunnel, addressed by its position at creation.
pub open spec fn spec_restore_saved(
    ts: Seq<TunnelV>,
    saved: Seq<SavedTunnelV>,
    next: u64,
    now: i64,
) -> (Seq<TunnelV>, u64, Seq<EffectV>)
    decreases saved.len(),
{
    if saved.len() == 0 {
        (ts, next, Seq::empty())
    } else if next < u64::MAX {
        let t = spec_tunnel_from_saved(next, saved[0], now);
        let r = spec_restore_saved(ts.push(t), saved.skip(1), (next + 1) as u64, now);
        (
            r.0,
            r.1,
            seq![EffectV::Dispatch(ActionV::ToggleTunnel(ts.len() as usize))] + r.2,
        )
    } else {
        spec_restore_saved(ts, saved.skip(1), next, now)
    }
}

/// The tick counter one later, wrapping.
pub open spec fn spec_next_tick(t: u32) -> u32 {
    if t < u32::MAX {
        (t + 1) as u32
    } else {
        0
    }
}

/// Moving the selection by one inside a list of `max` entries.
pub open spec fn spec_move_selection(cur: Option<usize>, down: bool, max: nat) -> Option<usize> {
    if max == 0 {
        cur
    } else {
        let c = match cur {
            Some(s) => s as nat,
            None => 0,
        };
        if down {
            if c + 1 < max {
                Some((c + 1) as usize)
            } else {
                Some((max - 1) as usize)
            }
        } else {
            if c > 0 {
                Some((c - 1) as usize)
            } else {
                Some(0usize)
            }
        }
    }
}

// ---------- the transition relation ----------

/// What one action does to the state: the next state and the effects the
/// reducer asks for, as a mathematical function of the previous state, the
/// action and the current time. This is the authoritative description of
/// the orchestration engine; `App::apply` is proved against it.
pub open spec fn spec_reduce(pre: AppV, a: ActionV, now: i64) -> (AppV, Seq<EffectV>) {
    match a {
        ActionV::Tick => {
            let t2 = spec_next_tick(pre.tick_count);
            let bumped = if pre.notification_ticks < u32::MAX {
                (pre.notification_ticks + 1) as u32
            } else {
                pre.notification_ticks
            };
            let s1 = if pre.notification is Some {
                if bumped >= 16 {
                    AppV { tick_count: t2, notification: None, notification_ticks: bumped, ..pre }
                } else {
                    AppV { tick_count: t2, notification_ticks: bumped, ..pre }
                }
            } else {
                AppV { tick_count: t2, ..pre }
            };
            let effs = if t2 % 40 == 0 && pre.connection_status is Connected
                && pre.connection is Some {
                seq![EffectV::SpawnHealthCheck(pre.connection->0)]
            } else {
                Seq::empty()
            };
            (s1, effs)
        },
        ActionV::Render => (pre, Seq::empty()),
        ActionV::Quit => {
            if pre.add_modal is Some {
                (AppV { add_modal: None, ..pre }, Seq::empty())
            } else if pre.search_mode {
                (
                    AppV {
                        search_mode: false,
                        search_query: Seq::empty(),
                        filtered_host_indices: spec_filtered(pre.hosts, Seq::empty()),
                        ..pre
                    },
                    Seq::empty(),
                )
            } else if pre.show_help {
                (AppV { show_help: false, ..pre }, Seq::empty())
            } else {
                (AppV { running: false, ..pre }, Seq::empty())
            }
        },
        ActionV::NavigateUp => (spec_navigate(pre, false), Seq::empty()),
        ActionV::NavigateDown => (spec_navigate(pre, true), Seq::empty()),
        ActionV::Select => {
            if pre.active_panel == Panel::Hosts && pre.host_selected is Some && (
            pre.host_selected->0 as int) < pre.filtered_host_indices.len() {
                (
                    pre,
                    seq![
                        EffectV::Dispatch(
                            ActionV::Connect(
                                pre.filtered_host_indices[pre.host_selected->0 as int],
                            ),
                        ),
                    ],
                )
            } else {
                (pre, Seq::empty())
            }
        },
        ActionV::SwitchPanel => (
            AppV {
                active_panel: match pre.active_panel {
                    Panel::Hosts => Panel::Tunnels,
                    Panel::Tunnels => Panel::Hosts,
                },
                ..pre
            },
            Seq::empty(),
        ),
        ActionV::StartSearch => {
            if pre.active_panel == Panel::Hosts {
                (AppV { search_mode: true, search_query: Seq::empty(), ..pre }, Seq::empty())
            } else {
                (pre, Seq::empty())
            }
        },
        ActionV::SearchInput(c) => {
            if pre.search_mode {
                (spec_search_to(pre, pre.search_query.push(c)), Seq::empty())
            } else {
                (pre, Seq::empty())
            }
        },
        ActionV::SearchBackspace => {
            if pre.search_mode {
                (spec_search_to(pre, spec_pop(pre.search_query)), Seq::empty())
            } else {
                (pre, Seq::empty())
            }
        },
        ActionV::EndSearch => (AppV { search_mode: false, ..pre }, Seq::empty()),
        ActionV::ShowHelp => (AppV { show_help: !pre.show_help, ..pre }, Seq::empty()),
        ActionV::Connect(idx) => {
            if (idx as int) < pre.hosts.len() {
                let host = pre.hosts[idx as int];
                let conn = ConnV { host, socket_path: spec_socket_path(host, pre.socket_dir) };
                let forget = match pre.connection {
                    Some(c) => seq![EffectV::SpawnDisconnectForget(c)],
                    None => Seq::empty(),
                };
                (
                    AppV {
                        tunnels: Seq::empty(),
                        tunnel_selected: None,
                        connection_status: StatusV::Connecting,
                        connection: Some(conn),
                        ..pre
                    },
                    forget + seq![EffectV::SpawnConnect(conn)],
                )
            } else {
                (pre, Seq::empty())
            }
        },
        ActionV::ConnectionEstablished => {
            match pre.connection {
                Some(conn) => {
                    let name = conn.host.name;
                    let h2 = spec_record_connection(pre.history, name, now);
                    let saved = spec_saved_tunnels(h2, name);
                    let loaded = spec_load_saved(pre.tunnels, saved, pre.next_tunnel_id, now);
                    let sel = if loaded.0.len() > 0 {
                        Some(0usize)
                    } else {
                        pre.tunnel_selected
                    };
                    (
                        with_note(
                            AppV {
                                connection_status: StatusV::Connected(name),
                                history: h2,
                                tunnels: loaded.0,
                                tunnel_selected: sel,
                                next_tunnel_id: loaded.1,
                                ..pre
                            },
                            "Connected to "@ + name,
                            NotificationLevel::Success,
                        ),
                        seq![EffectV::SaveHistory(h2)],
                    )
                },
                None => (pre, Seq::empty()),
            }
        },
        ActionV::ConnectionFailed(msg) => (
            AppV {
                connection_status: StatusV::Error(msg),
                connection: None,
                tunnels: Seq::empty(),
                tunnel_selected: None,
                notification: Some(
                    NotificationV {
                        message: "Connection failed: "@ + msg,
                        level: NotificationLevel::Error,
                    },
                ),
                notification_ticks: 0,
                ..pre
            },
            Seq::empty(),
        ),
        ActionV::Disconnect => {
            match pre.connection {
                Some(conn) => {
                    let h2 = spec_store_tunnels(pre.history, conn.host.name, pre.tunnels);
                    (
                        AppV {
                            history: h2,
                            connection: None,
                            connection_status: StatusV::Disconnected,
                            tunnels: Seq::empty(),
                            tunnel_selected: None,
                            ..pre
                        },
                        seq![EffectV::SaveHistory(h2), EffectV::SpawnDisconnect(conn)],
                    )
                },
                None => (pre, Seq::empty()),
            }
        },
        ActionV::Disconnected => (
            AppV {
                connection: None,
                connection_status: StatusV::Disconnected,
                tunnels: Seq::empty(),
                tunnel_selected: None,
                ..pre
            },
            Seq::empty(),
        ),
        ActionV::ShowAddTunnelModal => {
            if pre.connection_status is Connected {
                (AppV { add_modal: Some(spec_fresh_modal()), ..pre }, Seq::empty())
            } else {
                (
                    with_note(pre, "Connect to a host first (Enter)"@, NotificationLevel::Info),
                    Seq::empty(),
                )
            }
        },
        ActionV::ModalInput(c) => {
            match pre.add_modal {
                Some(m) => (
                    AppV { add_modal: Some(spec_modal_input(m, c)), ..pre },
                    Seq::empty(),
                ),
                None => (pre, Seq::empty()),
            }
        },
        ActionV::ModalBackspace => {
            match pre.add_modal {
                Some(m) => (
                    AppV { add_modal: Some(spec_modal_backspace(m)), ..pre },
                    Seq::empty(),
                ),
                None => (pre, Seq::empty()),
            }
        },
        ActionV::ModalNextField => {
            match pre.add_modal {
                Some(m) => (
                    AppV {
                        add_modal: Some(
                            ModalV {
                                active_field: crate::modal::spec_next_field(m.active_field),
                                ..m
                            },
                        ),
                        ..pre
                    },
                    Seq::empty(),
                ),
                None => (pre, Seq::empty()),
            }
        },
        ActionV::ModalSubmit => {
            match pre.add_modal {
                Some(m) => {
                    let checked = spec_modal_validate(m);
                    match checked.1 {
                        Some((lp, h, rp)) => (
                            AppV { add_modal: Some(checked.0), ..pre },
                            seq![
                                EffectV::ProbePort {
                                    local_port: lp,
                                    remote_host: h,
                                    remote_port: rp,
                                },
                            ],
                        ),
                        None => (AppV { add_modal: Some(checked.0), ..pre }, Seq::empty()),
                    }
                },
                None => (pre, Seq::empty()),
            }
        },
        ActionV::ModalValidated(lp, h, rp) => {
            match pre.add_modal {
                Some(_) => {
                    if pre.next_tunnel_id < u64::MAX {
                        let t = TunnelV {
                            id: pre.next_tunnel_id,
                            local_port: lp,
                            remote_host: h,
                            remote_port: rp,
                            enabled: false,
                            created_at: now,
                        };
                        let idx = pre.tunnels.len() as usize;
                        (
                            AppV {
                                add_modal: None,
                                tunnels: pre.tunnels.push(t),
                                tunnel_selected: Some(idx),
                                active_panel: Panel::Tunnels,
                                next_tunnel_id: (pre.next_tunnel_id + 1) as u64,
                                ..pre
                            },
                            seq![EffectV::Dispatch(ActionV::ToggleTunnel(idx))],
                        )
                    } else {
                        (AppV { add_modal: None, ..pre }, Seq::empty())
                    }
                },
                None => (pre, Seq::empty()),
            }
        },
        ActionV::ModalPortBusy(p) => {
            match pre.add_modal {
                Some(m) => (AppV { add_modal: Some(spec_port_busy(m, p)), ..pre }, Seq::empty()),
                None => (pre, Seq::empty()),
            }
        },
        ActionV::TunnelFailed(msg) => (
            with_note(pre, "Tunnel error: "@ + msg, NotificationLevel::Error),
            Seq::empty(),
        ),
        ActionV::ToggleTunnel(idx) => {
            if (idx as int) < pre.tunnels.len() && pre.connection is Some {
                let t = pre.tunnels[idx as int];
                (
                    pre,
                    seq![
                        EffectV::SpawnTunnelOp {
                            conn: pre.connection->0,
                            tunnel: t,
                            enable: !t.enabled,
                        },
                    ],
                )
            } else {
                (pre, Seq::empty())
            }
        },
        ActionV::TunnelToggled(id, en) => {
            let k = spec_find_tunnel(pre.tunnels, id);
            if k < pre.tunnels.len() {
                (
                    AppV {
                        tunnels: pre.tunnels.update(
                            k,
                            TunnelV { enabled: en, ..pre.tunnels[k] },
                        ),
                        ..pre
                    },
                    Seq::empty(),
                )
            } else {
                (pre, Seq::empty())
            }
        },
        ActionV::DeleteTunnel(idx) => {
            if (idx as int) < pre.tunnels.len() {
                let t = pre.tunnels[idx as int];
                if t.enabled {
                    match pre.connection {
                        Some(c) => (
                            pre,
                            seq![EffectV::SpawnTunnelRemove { conn: c, tunnel: t }],
                        ),
                        None => (pre, Seq::empty()),
                    }
                } else {
                    let ts = spec_remove_tunnel(pre.tunnels, t.id);
                    (
                        AppV {
                            tunnels: ts,
                            tunnel_selected: spec_fix_selection(pre.tunnel_selected, ts.len()),
                            ..pre
                        },
                        Seq::empty(),
                    )
                }
            } else {
                (pre, Seq::empty())
            }
        },
        ActionV::TunnelDeleted(id) => {
            let ts = spec_remove_tunnel(pre.tunnels, id);
            (
                AppV {
                    tunnels: ts,
                    tunnel_selected: spec_fix_selection(pre.tunnel_selected, ts.len()),
                    ..pre
                },
                Seq::empty(),
            )
        },
        ActionV::RestoreTunnels => {
            match pre.connection_status {
                StatusV::Connected(name) => {
                    let saved = spec_saved_tunnels(pre.history, name);
                    let restored = spec_restore_saved(
                        pre.tunnels,
                        saved,
                        pre.next_tunnel_id,
                        now,
                    );
                    let s1 = if restored.0.len() > 0 {
                        AppV {
                            tunnels: restored.0,
                            next_tunnel_id: restored.1,
                            tunnel_selected: Some(0usize),
                            active_panel: Panel::Tunnels,
                            ..pre
                        }
                    } else {
                        AppV { tunnels: restored.0, next_tunnel_id: restored.1, ..pre }
                    };
                    (s1, restored.2)
                },
                _ => (pre, Seq::empty()),
            }
        },
    }
}

/// Navigation moves the selection of the focused panel by one.
pub open spec fn spec_navigate(pre: AppV, down: bool) -> AppV {
    match pre.active_panel {
        Panel::Hosts => AppV {
            host_selected: spec_move_selection(
                pre.host_selected,
                down,
                pre.filtered_host_indices.len(),
            ),
            ..pre
        },
        Panel::Tunnels => AppV {
            tunnel_selected: spec_move_selection(pre.tunnel_selected, down, pre.tunnels.len()),
            ..pre
        },
    }
}

/// The state after the search query changed to `q`: the filter is rebuilt
/// and the first visible host selected, if any.
pub open spec fn spec_search_to(pre: AppV, q: Seq<char>) -> AppV {
    let f = spec_filtered(pre.hosts, q);
    AppV {
        search_query: q,
        filtered_host_indices: f,
        host_selected: spec_select_first(f),
        ..pre
    }
}

/// Bounds of the rebuilt filter: no more entries than hosts, every entry a
/// host index.
pub proof fn lemma_filtered_rec_ok(hosts: Seq<HostV>, q: Seq<char>, i: int)
    requires
        0 <= i <= hosts.len(),
        hosts.len() <= usize::MAX,
    ensures
        spec_filtered_rec(hosts, q, i).len() <= hosts.len() - i,
        forall|k: int|
            0 <= k < spec_filtered_rec(hosts, q, i).len() ==> i <= (#[trigger] spec_filtered_rec(
                hosts,
                q,
                i,
            )[k] as int) < hosts.len(),
    decreases hosts.len() - i,
{
    if i < hosts.len() {
        lemma_filtered_rec_ok(hosts, q, i + 1);
        let rest = spec_filtered_rec(hosts, q, i + 1);
        if spec_host_matches(hosts[i], q) {
            let cur = seq![i as usize] + rest;
            assert(spec_filtered_rec(hosts, q, i) == cur);
            assert forall|k: int| 0 <= k < cur.len() implies i <= (#[trigger] cur[k] as int)
                < hosts.len() by {
                if k == 0 {
                    assert(cur[0] == i as usize);
                } else {
                    assert(cur[k] == rest[k - 1]);
                }
            }
        }
    }
}

pub proof fn lemma_filtered_ok(hosts: Seq<HostV>, q: Seq<char>)
    requires
        hosts.len() <= usize::MAX,
    ensures
        spec_filtered(hosts, q).len() <= hosts.len(),
        forall|k: int|
            0 <= k < spec_filtered(hosts, q).len() ==> (#[trigger] spec_filtered(hosts, q)[k] as int)
                < hosts.len(),
{
    if q.len() != 0 {
        lemma_filtered_rec_ok(hosts, q, 0);
    }
}

impl App {
    /// A fresh application state over loaded settings and history: not yet
    /// connected, no hosts, no tunnels, no overlays.
    pub fn new(config: AppConfig, history: History) -> (r: App)
        requires
            history.wf(),
        ensures
            r@.wf(),
            r@.running == true,
            r@.hosts == Seq::<HostV>::empty(),
            r@.host_selected is None,
            r@.active_panel == Panel::Hosts,
            r@.search_query == Seq::<char>::empty(),
            r@.search_mode == false,
            r@.filtered_host_indices == Seq::<usize>::empty(),
            r@.show_help == false,
            r@.connection is None,
            r@.connection_status == StatusV::Disconnected,
            r@.socket_dir == config@.socket_dir,
            r@.tick_count == 0,
            r@.tunnels == Seq::<TunnelV>::empty(),
            r@.tunnel_selected is None,
            r@.add_modal is None,
            r@.config == config@,
            r@.history == history@,
            r@.notification is None,
            r@.notification_ticks == 0,
            r@.next_tunnel_id == 1,
    {
        let socket_dir = config.general.socket_dir.as_str().to_owned();
        let r = App {
            running: true,
            hosts: Vec::new(),
            host_selected: None,
            active_panel: Panel::Hosts,
            search_query: String::new(),
            search_mode: false,
            filtered_host_indices: Vec::new(),
            show_help: false,
            connection: None,
            connection_status: ConnectionStatus::Disconnected,
            socket_dir,
            tick_count: 0,
            tunnels: Vec::new(),
            tunnel_selected: None,
            add_modal: None,
            config,
            history,
            notification: None,
            notification_ticks: 0,
            next_tunnel_id: 1,
        };
        proof {
            assert(r@.hosts =~= Seq::<HostV>::empty());
            assert(r@.filtered_host_indices =~= Seq::<usize>::empty());
            assert(r@.tunnels =~= Seq::<TunnelV>::empty());
        }
        r
    }

    /// Rebuild the filtered host indices from the current query; the
    /// selection is untouched.
    fn rebuild_filtered_indices(&mut self)
        ensures
            final(self)@ == (AppV {
                filtered_host_indices: spec_filtered(old(self)@.hosts, old(self)@.search_query),
                ..old(self)@
            }),
    {
        let ghost hv = self@.hosts;
        let ghost q = self@.search_query;
        let n = self.hosts.len();
        let mut f: Vec<usize> = Vec::new();
        if self.search_query.unicode_len() == 0 {
            let mut i: usize = 0;
            while i < n
                invariant
                    n == hv.len(),
                    hv == self@.hosts,
                    0 <= i <= n,
                    f@.len() == i,
                    forall|k: int| 0 <= k < i ==> #[trigger] f@[k] == k as usize,
                decreases n - i,
            {
                f.push(i);
                i += 1;
            }
            proof {
                assert(f@ =~= spec_filtered(hv, q));
            }
        } else {
            let mut i: usize = 0;
            proof {
                assert(Seq::<usize>::empty() + spec_filtered_rec(hv, q, 0) =~= spec_filtered_rec(
                    hv,
                    q,
                    0,
                ));
            }
            while i < n
                invariant
                    n == hv.len(),
                    hv == self@.hosts,
                    q == self@.search_query,
                    n == self.hosts@.len(),
                    q.len() > 0,
                    0 <= i <= n,
                    f@ + spec_filtered_rec(hv, q, i as int) == spec_filtered_rec(hv, q, 0),
                decreases n - i,
            {
                let h = &self.hosts[i];
                let mut hit = contains_ci(h.name.as_str(), self.search_query.as_str());
                if !hit {
                    if let Some(hn) = &h.hostname {
                        hit = contains_ci(hn.as_str(), self.search_query.as_str());
                    }
                }
                proof {
                    assert(hv[i as int] == self.hosts@[i as int]@);
                }
                if hit {
                    f.push(i);
                    proof {
                        assert(spec_host_matches(hv[i as int], q));
                        assert(f@ =~= f@.drop_last() + seq![i as usize]);
                        assert((f@.drop_last() + seq![i as usize]) + spec_filtered_rec(
                            hv,
                            q,
                            i + 1,
                        ) =~= f@.drop_last() + (seq![i as usize] + spec_filtered_rec(hv, q, i + 1)));
                    }
                } else {
                    proof {
                        assert(!spec_host_matches(hv[i as int], q));
                    }
                }
                i += 1;
            }
            proof {
                assert(spec_filtered_rec(hv, q, n as int) =~= Seq::<usize>::empty());
                assert(f@ + Seq::<usize>::empty() =~= f@);
                assert(f@ =~= spec_filtered(hv, q));
            }
        }
        self.filtered_host_indices = f;
        proof {
            assert(self@ =~~= (AppV {
                filtered_host_indices: spec_filtered(old(self)@.hosts, old(self)@.search_query),
                ..old(self)@
            }));
        }
    }

    /// Install the loaded host list, rebuild the filter, and select the
    /// first visible host if any is.
    pub fn load_hosts(&mut self, hosts: Vec<SshHost>)
        requires
            old(self)@.wf(),
        ensures
            final(self)@.wf(),
            final(self)@ == ({
                let hv = hosts@.map_values(|h: SshHost| h@);
                let f = spec_filtered(hv, old(self)@.search_query);
                AppV {
                    hosts: hv,
                    filtered_host_indices: f,
                    host_selected: spec_select_first(f),
                    ..old(self)@
                }
            }),
    {
        self.hosts = hosts;
        self.rebuild_filtered_indices();
        if self.filtered_host_indices.len() > 0 {
            self.host_selected = Some(0);
        } else {
            self.host_selected = None;
        }
        proof {
            assert(self@.hosts.len() == self.hosts@.len());
            assert(self.hosts@.len() <= usize::MAX) by {
                assert(self.hosts@.len() == self.hosts.len());
            }
            lemma_filtered_ok(self@.hosts, self@.search_query);
            assert(self@ =~~= ({
                let hv = hosts@.map_values(|h: SshHost| h@);
                let f = spec_filtered(hv, old(self)@.search_query);
                AppV {
                    hosts: hv,
                    filtered_host_indices: f,
                    host_selected: spec_select_first(f),
                    ..old(self)@
                }
            }));
        }
    }

    /// Set a fresh transient notification.
    fn notify(&mut self, message: String, level: NotificationLevel)
        ensures
            final(self)@ == with_note(old(self)@, message@, level),
    {
        let ghost mv = message@;
        self.notification = Some(Notification { message, level });
        self.notification_ticks = 0;
        proof {
            assert(self@ =~~= with_note(old(self)@, mv, level));
        }
    }

    /// Clamp the tunnel selection after the registry shrank.
    fn fix_tunnel_selection(&mut self)
        ensures
            final(self)@ == (AppV {
                tunnel_selected: spec_fix_selection(
                    old(self)@.tunnel_selected,
                    old(self)@.tunnels.len(),
                ),
                ..old(self)@
            }),
    {
        if self.tunnels.len() == 0 {
            self.tunnel_selected = None;
        } else if let Some(s) = self.tunnel_selected {
            if s >= self.tunnels.len() {
                self.tunnel_selected = Some(self.tunnels.len() - 1);
            }
        }
        proof {
            assert(self@ =~~= (AppV {
                tunnel_selected: spec_fix_selection(
                    old(self)@.tunnel_selected,
                    old(self)@.tunnels.len(),
                ),
                ..old(self)@
            }));
        }
    }

    /// Drop every tunnel with this identity from the registry.
    fn remove_tunnel_by_id(&mut self, id: u64)
        ensures
            final(self)@ == (AppV {
                tunnels: spec_remove_tunnel(old(self)@.tunnels, id),
                ..old(self)@
            }),
    {
        let ghost tv = self@.tunnels;
        let n = self.tunnels.len();
        let mut kept: Vec<Tunnel> = Vec::new();
        let mut i: usize = 0;
        proof {
            assert(tunnels_view(kept@) =~= Seq::<TunnelV>::empty());
            assert(Seq::<TunnelV>::empty() + spec_remove_tunnel(tv, id) =~= spec_remove_tunnel(
                tv,
                id,
            ));
            assert(tv.skip(0) =~= tv);
        }
        while i < n
            invariant
                n == self.tunnels@.len(),
                tv == tunnels_view(self.tunnels@),
                0 <= i <= n,
                tunnels_view(kept@) + spec_remove_tunnel(tv.skip(i as int), id)
                    == spec_remove_tunnel(tv, id),
            decreases n - i,
        {
            proof {
                assert(tv.skip(i as int)[0] == tv[i as int]);
                assert(tv.skip(i as int).skip(1) =~= tv.skip(i + 1));
            }
            let t = &self.tunnels[i];
            if t.id != id {
                kept.push(t.duplicate());
                proof {
                    assert(tunnels_view(kept@) =~= tunnels_view(kept@).drop_last() + seq![
                        tv[i as int],
                    ]);
                    assert((tunnels_view(kept@).drop_last() + seq![tv[i as int]])
                        + spec_remove_tunnel(tv.skip(i + 1), id) =~= tunnels_view(
                        kept@,
                    ).drop_last() + (seq![tv[i as int]] + spec_remove_tunnel(tv.skip(i + 1), id)));
                }
            }
            i += 1;
        }
        proof {
            assert(tv.skip(n as int) =~= Seq::<TunnelV>::empty());
            assert(tunnels_view(kept@) + Seq::<TunnelV>::empty() =~= tunnels_view(kept@));
        }
        self.tunnels = kept;
        proof {
            assert(self@ =~~= (AppV {
                tunnels: spec_remove_tunnel(old(self)@.tunnels, id),
                ..old(self)@
            }));
        }
    }

    /// Move the focused panel's selection by one; positive is down.
    fn navigate(&mut self, delta: i32)
        ensures
            final(self)@ == spec_navigate(old(self)@, delta > 0),
    {
        match self.active_panel {
            Panel::Hosts => {
                let max = self.filtered_host_indices.len();
                if max > 0 {
                    let current = match self.host_selected {
                        Some(s) => s,
                        None => 0,
                    };
                    let next = if delta > 0 {
                        if current < max - 1 {
                            current + 1
                        } else {
                            max - 1
                        }
                    } else {
                        if current > 0 {
                            current - 1
                        } else {
                            0
                        }
                    };
                    self.host_selected = Some(next);
                }
            },
            Panel::Tunnels => {
                let max = self.tunnels.len();
                if max > 0 {
                    let current = match self.tunnel_selected {
                        Some(s) => s,
                        None => 0,
                    };
                    let next = if delta > 0 {
                        if current < max - 1 {
                            current + 1
                        } else {
                            max - 1
                        }
                    } else {
                        if current > 0 {
                            current - 1
                        } else {
                            0
                        }
                    };
                    self.tunnel_selected = Some(next);
                }
            },
        }
        proof {
            assert(self@ =~~= spec_navigate(old(self)@, delta > 0));
        }
    }

    /// The host the cursor is on, if any.
    pub fn selected_host(&self) -> (r: Option<&SshHost>)
        requires
            self@.wf(),
        ensures
            (match r {
                Some(h) => {
                    &&& self@.host_selected matches Some(s)
                    &&& (s as int) < self@.filtered_host_indices.len()
                    &&& h@ == self@.hosts[self@.filtered_host_indices[s as int] as int]
                },
                None => self@.host_selected is None,
            }),
    {
        match self.host_selected {
            Some(s) => {
                let ri = self.filtered_host_indices[s];
                Some(&self.hosts[ri])
            },
            None => None,
        }
    }

    /// The name of the connected host, if the status says connected.
    pub fn connected_host_name(&self) -> (r: Option<&str>)
        ensures
            (match r {
                Some(n) => self@.connection_status matches StatusV::Connected(m) && n@ == m,
                None => !(self@.connection_status is Connected),
            }),
    {
        match &self.connection_status {
            ConnectionStatus::Connected(name) => Some(name.as_str()),
            _ => None,
        }
    }
}

// ---------- the reducer, arm by arm ----------

impl App {
    fn on_tick(&mut self, now: i64) -> (effects: Vec<Effect>)
        requires
            old(self)@.wf(),
        ensures
            final(self)@.wf(),
            final(self)@ == spec_reduce(old(self)@, ActionV::Tick, now).0,
            effects_view(effects@) == spec_reduce(old(self)@, ActionV::Tick, now).1,
    {
        self.tick_count = if self.tick_count < u32::MAX {
            self.tick_count + 1
        } else {
            0
        };
        if self.notification.is_some() {
            self.notification_ticks = if self.notification_ticks < u32::MAX {
                self.notification_ticks + 1
            } else {
                self.notification_ticks
            };
            if self.notification_ticks >= 16 {
                self.notification = None;
            }
        }
        let mut effects: Vec<Effect> = Vec::new();
        if self.tick_count % 40 == 0 {
            if let ConnectionStatus::Connected(_) = &self.connection_status {
                let conn_copy = match &self.connection {
                    Some(c) => Some(c.duplicate()),
                    None => None,
                };
                if let Some(c) = conn_copy {
                    effects.push(Effect::SpawnHealthCheck(c));
                }
            }
        }
        proof {
            let r = spec_reduce(old(self)@, ActionV::Tick, now);
            assert(self@ =~~= r.0);
            assert(effects_view(effects@) =~~= r.1);
        }
        effects
    }

    fn on_quit(&mut self, now: i64) -> (effects: Vec<Effect>)
        requires
            old(self)@.wf(),
        ensures
            final(self)@.wf(),
            final(self)@ == spec_reduce(old(self)@, ActionV::Quit, now).0,
            effects_view(effects@) == spec_reduce(old(self)@, ActionV::Quit, now).1,
    {
        if self.add_modal.is_some() {
            self.add_modal = None;
        } else if self.search_mode {
            self.search_mode = false;
            self.search_query = String::new();
            self.rebuild_filtered_indices();
            proof {
                assert(self.hosts@.len() == self.hosts.len());
                lemma_filtered_ok(self@.hosts, self@.search_query);
            }
        } else if self.show_help {
            self.show_help = false;
        } else {
            self.running = false;
        }
        let effects: Vec<Effect> = Vec::new();
        proof {
            let r = spec_reduce(old(self)@, ActionV::Quit, now);
            assert(self@ =~~= r.0);
            assert(effects_view(effects@) =~~= r.1);
        }
        effects
    }

    fn on_navigate(&mut self, delta: i32) -> (effects: Vec<Effect>)
        requires
            old(self)@.wf(),
        ensures
            final(self)@.wf(),
            final(self)@ == spec_navigate(old(self)@, delta > 0),
            effects@.len() == 0,
    {
        self.navigate(delta);
        let effects: Vec<Effect> = Vec::new();
        effects
    }

    fn on_select(&mut self) -> (effects: Vec<Effect>)
        requires
            old(self)@.wf(),
        ensures
            final(self)@.wf(),
            final(self)@ == old(self)@,
            effects_view(effects@) == spec_reduce(old(self)@, ActionV::Select, 0).1,
    {
        let mut effects: Vec<Effect> = Vec::new();
        if self.active_panel == Panel::Hosts {
            if let Some(s) = self.host_selected {
                if s < self.filtered_host_indices.len() {
                    let idx = self.filtered_host_indices[s];
                    effects.push(Effect::Dispatch(Action::Connect(idx)));
                }
            }
        }
        proof {
            let r = spec_reduce(old(self)@, ActionV::Select, 0);
            assert(effects_view(effects@) =~~= r.1);
        }
        effects
    }

    fn on_search_changed(&mut self)
        requires
            old(self)@.wf(),
        ensures
            final(self)@.wf(),
            final(self)@ == spec_search_to(old(self)@, old(self)@.search_query),
    {
        self.rebuild_filtered_indices();
        if self.filtered_host_indices.len() > 0 {
            self.host_selected = Some(0);
        } else {
            self.host_selected = None;
        }
        proof {
            assert(self.hosts@.len() == self.hosts.len());
            lemma_filtered_ok(self@.hosts, self@.search_query);
            assert(self@ =~~= spec_search_to(old(self)@, old(self)@.search_query));
        }
    }

    fn on_connect(&mut self, idx: usize) -> (effects: Vec<Effect>)
        requires
            old(self)@.wf(),
        ensures
            final(self)@.wf(),
            final(self)@ == spec_reduce(old(self)@, ActionV::Connect(idx), 0).0,
            effects_view(effects@) == spec_reduce(old(self)@, ActionV::Connect(idx), 0).1,
    {
        let mut effects: Vec<Effect> = Vec::new();
        if idx < self.hosts.len() {
            if let Some(old_conn) = self.connection.take() {
                effects.push(Effect::SpawnDisconnectForget(old_conn));
            }
            self.tunnels = Vec::new();
            self.tunnel_selected = None;
            self.connection_status = ConnectionStatus::Connecting;
            let host = clone_host(&self.hosts[idx]);
            let mgr = ConnectionManager::new(host, self.socket_dir.as_str());
            effects.push(Effect::SpawnConnect(mgr.duplicate()));
            self.connection = Some(mgr);
            proof {
                let r = spec_reduce(old(self)@, ActionV::Connect(idx), 0);
                assert(self@.tunnels =~= Seq::<TunnelV>::empty());
                assert(self@.connection->0 =~~= r.0.connection->0);
                assert(self@ =~~= r.0);
                assert(effects_view(effects@) =~~= r.1);
            }
        } else {
            proof {
                let r = spec_reduce(old(self)@, ActionV::Connect(idx), 0);
                assert(self@ =~~= r.0);
                assert(effects_view(effects@) =~~= r.1);
            }
        }
        effects
    }

    fn on_connection_failed(&mut self, msg: String) -> (effects: Vec<Effect>)
        requires
            old(self)@.wf(),
        ensures
            final(self)@.wf(),
            final(self)@ == spec_reduce(old(self)@, ActionV::ConnectionFailed(msg@), 0).0,
            effects@.len() == 0,
    {
        let ghost mv = msg@;
        let mut note = String::new();
        note.append("Connection failed: ");
        note.append(msg.as_str());
        self.notify(note, NotificationLevel::Error);
        self.connection_status = ConnectionStatus::Error(msg);
        self.connection = None;
        self.tunnels = Vec::new();
        self.tunnel_selected = None;
        let effects: Vec<Effect> = Vec::new();
        proof {
            let r = spec_reduce(old(self)@, ActionV::ConnectionFailed(mv), 0);
            assert(self@.tunnels =~= Seq::<TunnelV>::empty());
            assert(self@ =~~= r.0);
        }
        effects
    }

    fn on_disconnected(&mut self) -> (effects: Vec<Effect>)
        requires
            old(self)@.wf(),
        ensures
            final(self)@.wf(),
            final(self)@ == spec_reduce(old(self)@, ActionV::Disconnected, 0).0,
            effects@.len() == 0,
    {
        self.connection = None;
        self.connection_status = ConnectionStatus::Disconnected;
        self.tunnels = Vec::new();
        self.tunnel_selected = None;
        let effects: Vec<Effect> = Vec::new();
        proof {
            let r = spec_reduce(old(self)@, ActionV::Disconnected, 0);
            assert(self@.tunnels =~= Seq::<TunnelV>::empty());
            assert(self@ =~~= r.0);
        }
        effects
    }
}

/// Removing an identity keeps the other tunnels: uniqueness and the
/// id bound survive, and the identity is gone.
pub proof fn lemma_remove_tunnel_ok(ts: Seq<TunnelV>, id: u64, bound: u64)
    requires
        forall|i: int, j: int| 0 <= i < j < ts.len() ==> ts[i].id != ts[j].id,
        forall|i: int| 0 <= i < ts.len() ==> #[trigger] ts[i].id < bound,
    ensures
        ({
            let r = spec_remove_tunnel(ts, id);
            &&& r.len() <= ts.len()
            &&& (forall|i: int, j: int| 0 <= i < j < r.len() ==> r[i].id != r[j].id)
            &&& (forall|i: int| 0 <= i < r.len() ==> #[trigger] r[i].id < bound)
            &&& (forall|i: int| 0 <= i < r.len() ==> (#[trigger] r[i]).id != id)
        }),
    decreases ts.len(),
{
    if ts.len() > 0 {
        let tail = ts.skip(1);
        assert forall|i: int, j: int| 0 <= i < j < tail.len() implies tail[i].id != tail[j].id by {
            assert(tail[i] == ts[i + 1]);
            assert(tail[j] == ts[j + 1]);
        }
        assert forall|i: int| 0 <= i < tail.len() implies #[trigger] tail[i].id < bound by {
            assert(tail[i] == ts[i + 1]);
        }
        lemma_remove_tunnel_ok(tail, id, bound);
        let rest = spec_remove_tunnel(tail, id);
        if ts[0].id != id {
            let r = seq![ts[0]] + rest;
            assert(spec_remove_tunnel(ts, id) == r);
            // each element of rest is an element of the tail
            assert forall|i: int, j: int| 0 <= i < j < r.len() implies r[i].id != r[j].id by {
                if i == 0 {
                    assert(r[j] == rest[j - 1]);
                    lemma_remove_member(tail, id, rest[j - 1]);
                } else {
                    assert(r[i] == rest[i - 1]);
                    assert(r[j] == rest[j - 1]);
                }
            }
            assert forall|i: int| 0 <= i < r.len() implies #[trigger] r[i].id < bound by {
                if i > 0 {
                    assert(r[i] == rest[i - 1]);
                }
            }
            assert forall|i: int| 0 <= i < r.len() implies (#[trigger] r[i]).id != id by {
                if i > 0 {
                    assert(r[i] == rest[i - 1]);
                }
            }
        }
    }
}

/// Every tunnel that survives the removal was in the registry.
proof fn lemma_remove_member(ts: Seq<TunnelV>, id: u64, t: TunnelV)
    requires
        spec_remove_tunnel(ts, id).contains(t),
    ensures
        ts.contains(t),
    decreases ts.len(),
{
    if ts.len() > 0 {
        let tail = ts.skip(1);
        let rest = spec_remove_tunnel(tail, id);
        if ts[0].id != id {
            let r = seq![ts[0]] + rest;
            let k = choose|k: int| 0 <= k < r.len() && r[k] == t;
            if k == 0 {
                assert(ts[0] == t);
            } else {
                assert(rest[k - 1] == t);
                assert(rest.contains(t));
                lemma_remove_member(tail, id, t);
                let m = choose|m: int| 0 <= m < tail.len() && tail[m] == t;
                assert(ts[m + 1] == t);
            }
        } else {
            lemma_remove_member(tail, id, t);
            let m = choose|m: int| 0 <= m < tail.len() && tail[m] == t;
            assert(ts[m + 1] == t);
        }
    }
}

impl App {
    fn on_connection_established(&mut self, now: i64) -> (effects: Vec<Effect>)
        requires
            old(self)@.wf(),
        ensures
            final(self)@.wf(),
            final(self)@ == spec_reduce(old(self)@, ActionV::ConnectionEstablished, now).0,
            effects_view(effects@) == spec_reduce(old(self)@, ActionV::ConnectionEstablished, now).1,
    {
        let mut effects: Vec<Effect> = Vec::new();
        let name_opt = match &self.connection {
            Some(conn) => Some(conn.host().name.as_str().to_owned()),
            None => None,
        };
        match name_opt {
            Some(name) => {
                self.connection_status = ConnectionStatus::Connected(name.as_str().to_owned());
                self.history.record_connection(name.as_str(), now);
                effects.push(Effect::SaveHistory(self.history.duplicate()));
                let saved = self.history.get_saved_tunnels(name.as_str());
                let ghost tv0 = self@.tunnels;
                let ghost next0 = self.next_tunnel_id;
                let ghost sv = saved@.map_values(|t: SavedTunnel| t@);
                let n = saved.len();
                let mut j: usize = 0;
                let ghost mid = self@;
                proof {
                    assert(sv.skip(0) =~= sv);
                }
                while j < n
                    invariant
                        n == saved@.len(),
                        sv == saved@.map_values(|t: SavedTunnel| t@),
                        0 <= j <= n,
                        self@ == (AppV {
                            tunnels: self@.tunnels,
                            next_tunnel_id: self@.next_tunnel_id,
                            ..mid
                        }),
                        self@.tunnels.len() >= mid.tunnels.len(),
                        spec_load_saved(tv0, sv, next0, now) == spec_load_saved(
                            self@.tunnels,
                            sv.skip(j as int),
                            self.next_tunnel_id,
                            now,
                        ),
                        forall|a: int, b: int|
                            0 <= a < b < self@.tunnels.len() ==> self@.tunnels[a].id
                                != self@.tunnels[b].id,
                        forall|a: int|
                            0 <= a < self@.tunnels.len() ==> #[trigger] self@.tunnels[a].id
                                < self.next_tunnel_id,
                    decreases n - j,
                {
                    proof {
                        assert(sv.skip(j as int)[0] == sv[j as int]);
                        assert(sv.skip(j as int).skip(1) =~= sv.skip(j + 1));
                    }
                    if self.next_tunnel_id < u64::MAX {
                        let ghost pre_tv = self@.tunnels;
                        let ghost pre_self = self@;
                        let st = &saved[j];
                        let id = self.next_tunnel_id;
                        let t = Tunnel::new(
                            id,
                            st.local_port,
                            st.remote_host.as_str().to_owned(),
                            st.remote_port,
                            now,
                        );
                        proof {
                            assert(t@ =~~= spec_tunnel_from_saved(id, sv[j as int], now));
                        }
                        self.tunnels.push(t);
                        self.next_tunnel_id = id + 1;
                        proof {
                            assert(self@.tunnels =~= pre_tv.push(
                                spec_tunnel_from_saved(id, sv[j as int], now),
                            ));
                            assert(spec_load_saved(pre_tv, sv.skip(j as int), id, now)
                                == spec_load_saved(
                                self@.tunnels,
                                sv.skip(j + 1),
                                self.next_tunnel_id,
                                now,
                            ));
                            assert(self@ =~~= (AppV {
                                tunnels: self@.tunnels,
                                next_tunnel_id: self@.next_tunnel_id,
                                ..mid
                            }));
                        }
                    }
                    j += 1;
                }
                proof {
                    assert(sv.skip(n as int) =~= Seq::<SavedTunnelV>::empty());
                }
                if self.tunnels.len() > 0 {
                    self.tunnel_selected = Some(0);
                }
                let mut msg = String::new();
                msg.append("Connected to ");
                msg.append(name.as_str());
                proof {
                    assert(msg@ =~= "Connected to "@ + name@);
                }
                self.notify(msg, NotificationLevel::Success);
                proof {
                    let r = spec_reduce(old(self)@, ActionV::ConnectionEstablished, now);
                    let pre = old(self)@;
                    let sname = pre.connection->0.host.name;
                    let h2 = spec_record_connection(pre.history, sname, now);
                    let loaded = spec_load_saved(
                        pre.tunnels,
                        spec_saved_tunnels(h2, sname),
                        pre.next_tunnel_id,
                        now,
                    );
                    assert(name@ == sname);
                    assert(self@.history == h2);
                    assert(sv == spec_saved_tunnels(h2, sname));
                    assert(spec_load_saved(tv0, sv, next0, now) == spec_load_saved(
                        self@.tunnels,
                        sv.skip(n as int),
                        self.next_tunnel_id,
                        now,
                    ));
                    assert(sv.skip(n as int).len() == 0);
                    assert(self@.tunnels == loaded.0);
                    assert(self@.next_tunnel_id == loaded.1);
                    assert(self@.connection_status =~~= StatusV::Connected(sname));
                    assert(self@.notification =~~= Some(
                        NotificationV {
                            message: "Connected to "@ + sname,
                            level: NotificationLevel::Success,
                        },
                    ));
                    assert(self@ =~~= r.0);
                    assert(effects_view(effects@) =~~= r.1);
                    assert(forall|a: int, b: int|
                        0 <= a < b < self@.tunnels.len() ==> self@.tunnels[a].id
                            != self@.tunnels[b].id);
                    assert(forall|a: int|
                        0 <= a < self@.tunnels.len() ==> #[trigger] self@.tunnels[a].id
                            < self@.next_tunnel_id);
                    assert(match self@.tunnel_selected {
                        Some(k) => (k as int) < self@.tunnels.len(),
                        None => true,
                    });
                    assert(match self@.host_selected {
                        Some(k) => (k as int) < self@.filtered_host_indices.len(),
                        None => true,
                    });
                    assert(forall|i: int|
                        0 <= i < self@.filtered_host_indices.len()
                            ==> (#[trigger] self@.filtered_host_indices[i] as int)
                            < self@.hosts.len());
                    assert(self@.filtered_host_indices.len() <= self@.hosts.len());
                    assert(forall|i: int, j: int|
                        0 <= i < j < self@.history.len() ==> self@.history[i].name
                            != self@.history[j].name);
                    assert(self@.wf());
                }
            },
            None => {
                proof {
                    let r = spec_reduce(old(self)@, ActionV::ConnectionEstablished, now);
                    assert(self@ =~~= r.0);
                    assert(effects_view(effects@) =~~= r.1);
                }
            },
        }
        effects
    }

    fn on_disconnect(&mut self) -> (effects: Vec<Effect>)
        requires
            old(self)@.wf(),
        ensures
            final(self)@.wf(),
            final(self)@ == spec_reduce(old(self)@, ActionV::Disconnect, 0).0,
            effects_view(effects@) == spec_reduce(old(self)@, ActionV::Disconnect, 0).1,
    {
        let mut effects: Vec<Effect> = Vec::new();
        let name_opt = match &self.connection {
            Some(conn) => Some(conn.host().name.as_str().to_owned()),
            None => None,
        };
        match name_opt {
            Some(name) => {
                self.history.save_tunnels(name.as_str(), &self.tunnels);
                effects.push(Effect::SaveHistory(self.history.duplicate()));
                if let Some(conn) = self.connection.take() {
                    effects.push(Effect::SpawnDisconnect(conn));
                }
                self.connection_status = ConnectionStatus::Disconnected;
                self.tunnels = Vec::new();
                self.tunnel_selected = None;
                proof {
                    let r = spec_reduce(old(self)@, ActionV::Disconnect, 0);
                    assert(self@.tunnels =~= Seq::<TunnelV>::empty());
                    assert(self@ =~~= r.0);
                    assert(effects_view(effects@) =~~= r.1);
                }
            },
            None => {
                proof {
                    let r = spec_reduce(old(self)@, ActionV::Disconnect, 0);
                    assert(self@ =~~= r.0);
                    assert(effects_view(effects@) =~~= r.1);
                }
            },
        }
        effects
    }
}

impl App {
    fn on_show_add_modal(&mut self) -> (effects: Vec<Effect>)
        requires
            old(self)@.wf(),
        ensures
            final(self)@.wf(),
            final(self)@ == spec_reduce(old(self)@, ActionV::ShowAddTunnelModal, 0).0,
            effects@.len() == 0,
    {
        let connected = match &self.connection_status {
            ConnectionStatus::Connected(_) => true,
            _ => false,
        };
        if connected {
            self.add_modal = Some(AddModalState::new());
        } else {
            self.notify("Connect to a host first (Enter)".to_owned(), NotificationLevel::Info);
        }
        let effects: Vec<Effect> = Vec::new();
        proof {
            let r = spec_reduce(old(self)@, ActionV::ShowAddTunnelModal, 0);
            assert(self@ =~~= r.0);
        }
        effects
    }

    fn on_modal_input(&mut self, c: char) -> (effects: Vec<Effect>)
        requires
            old(self)@.wf(),
        ensures
            final(self)@.wf(),
            final(self)@ == spec_reduce(old(self)@, ActionV::ModalInput(c), 0).0,
            effects@.len() == 0,
    {
        let modal = self.add_modal.take();
        match modal {
            Some(mut m) => {
                m.input(c);
                self.add_modal = Some(m);
            },
            None => {},
        }
        let effects: Vec<Effect> = Vec::new();
        proof {
            let r = spec_reduce(old(self)@, ActionV::ModalInput(c), 0);
            assert(self@ =~~= r.0);
        }
        effects
    }

    fn on_modal_backspace(&mut self) -> (effects: Vec<Effect>)
        requires
            old(self)@.wf(),
        ensures
            final(self)@.wf(),
            final(self)@ == spec_reduce(old(self)@, ActionV::ModalBackspace, 0).0,
            effects@.len() == 0,
    {
        let modal = self.add_modal.take();
        match modal {
            Some(mut m) => {
                m.backspace();
                self.add_modal = Some(m);
            },
            None => {},
        }
        let effects: Vec<Effect> = Vec::new();
        proof {
            let r = spec_reduce(old(self)@, ActionV::ModalBackspace, 0);
            assert(self@ =~~= r.0);
        }
        effects
    }

    fn on_modal_next_field(&mut self) -> (effects: Vec<Effect>)
        requires
            old(self)@.wf(),
        ensures
            final(self)@.wf(),
            final(self)@ == spec_reduce(old(self)@, ActionV::ModalNextField, 0).0,
            effects@.len() == 0,
    {
        let modal = self.add_modal.take();
        match modal {
            Some(mut m) => {
                m.next_field();
                self.add_modal = Some(m);
            },
            None => {},
        }
        let effects: Vec<Effect> = Vec::new();
        proof {
            let r = spec_reduce(old(self)@, ActionV::ModalNextField, 0);
            assert(self@ =~~= r.0);
        }
        effects
    }

    fn on_modal_submit(&mut self) -> (effects: Vec<Effect>)
        requires
            old(self)@.wf(),
        ensures
            final(self)@.wf(),
            final(self)@ == spec_reduce(old(self)@, ActionV::ModalSubmit, 0).0,
            effects_view(effects@) == spec_reduce(old(self)@, ActionV::ModalSubmit, 0).1,
    {
        let mut effects: Vec<Effect> = Vec::new();
        let modal = self.add_modal.take();
        match modal {
            Some(mut m) => {
                match m.validate() {
                    Some((lp, host, rp)) => {
                        effects.push(
                            Effect::ProbePort {
                                local_port: lp,
                                remote_host: host,
                                remote_port: rp,
                            },
                        );
                    },
                    None => {},
                }
                self.add_modal = Some(m);
            },
            None => {},
        }
        proof {
            let r = spec_reduce(old(self)@, ActionV::ModalSubmit, 0);
            assert(self@ =~~= r.0);
            assert(effects_view(effects@) =~~= r.1);
        }
        effects
    }

    fn on_modal_validated(&mut self, lp: u16, host: String, rp: u16, now: i64) -> (effects: Vec<
        Effect,
    >)
        requires
            old(self)@.wf(),
        ensures
            final(self)@.wf(),
            final(self)@ == spec_reduce(old(self)@, ActionV::ModalValidated(lp, host@, rp), now).0,
            effects_view(effects@) == spec_reduce(
                old(self)@,
                ActionV::ModalValidated(lp, host@, rp),
                now,
            ).1,
    {
        let ghost hv = host@;
        let mut effects: Vec<Effect> = Vec::new();
        if self.add_modal.is_some() {
            self.add_modal = None;
            if self.next_tunnel_id < u64::MAX {
                let id = self.next_tunnel_id;
                let t = Tunnel::new(id, lp, host, rp, now);
                self.tunnels.push(t);
                let idx = self.tunnels.len() - 1;
                effects.push(Effect::Dispatch(Action::ToggleTunnel(idx)));
                self.tunnel_selected = Some(idx);
                self.active_panel = Panel::Tunnels;
                self.next_tunnel_id = id + 1;
            }
        }
        proof {
            let r = spec_reduce(old(self)@, ActionV::ModalValidated(lp, hv, rp), now);
            assert(self@ =~~= r.0);
            assert(effects_view(effects@) =~~= r.1);
        }
        effects
    }

    fn on_modal_port_busy(&mut self, p: u16) -> (effects: Vec<Effect>)
        requires
            old(self)@.wf(),
        ensures
            final(self)@.wf(),
            final(self)@ == spec_reduce(old(self)@, ActionV::ModalPortBusy(p), 0).0,
            effects@.len() == 0,
    {
        let modal = self.add_modal.take();
        match modal {
            Some(mut m) => {
                m.set_port_in_use(p);
                self.add_modal = Some(m);
            },
            None => {},
        }
        let effects: Vec<Effect> = Vec::new();
        proof {
            let r = spec_reduce(old(self)@, ActionV::ModalPortBusy(p), 0);
            assert(self@ =~~= r.0);
        }
        effects
    }

    fn on_tunnel_failed(&mut self, msg: String) -> (effects: Vec<Effect>)
        requires
            old(self)@.wf(),
        ensures
            final(self)@.wf(),
            final(self)@ == spec_reduce(old(self)@, ActionV::TunnelFailed(msg@), 0).0,
            effects@.len() == 0,
    {
        let ghost mv = msg@;
        let mut note = String::new();
        note.append("Tunnel error: ");
        note.append(msg.as_str());
        proof {
            assert(note@ =~= "Tunnel error: "@ + mv);
        }
        self.notify(note, NotificationLevel::Error);
        let effects: Vec<Effect> = Vec::new();
        proof {
            let r = spec_reduce(old(self)@, ActionV::TunnelFailed(mv), 0);
            assert(self@ =~~= r.0);
        }
        effects
    }

    fn on_toggle_tunnel(&mut self, idx: usize) -> (effects: Vec<Effect>)
        requires
            old(self)@.wf(),
        ensures
            final(self)@.wf(),
            final(self)@ == old(self)@,
            effects_view(effects@) == spec_reduce(old(self)@, ActionV::ToggleTunnel(idx), 0).1,
    {
        let mut effects: Vec<Effect> = Vec::new();
        if idx < self.tunnels.len() {
            let conn_copy = match &self.connection {
                Some(c) => Some(c.duplicate()),
                None => None,
            };
            if let Some(conn) = conn_copy {
                let t = self.tunnels[idx].duplicate();
                let enable = !t.enabled;
                effects.push(Effect::SpawnTunnelOp { conn, tunnel: t, enable });
            }
        }
        proof {
            let r = spec_reduce(old(self)@, ActionV::ToggleTunnel(idx), 0);
            assert(effects_view(effects@) =~~= r.1);
        }
        effects
    }

    fn on_tunnel_toggled(&mut self, id: u64, enabled: bool) -> (effects: Vec<Effect>)
        requires
            old(self)@.wf(),
        ensures
            final(self)@.wf(),
            final(self)@ == spec_reduce(old(self)@, ActionV::TunnelToggled(id, enabled), 0).0,
            effects@.len() == 0,
    {
        let ghost tv = self@.tunnels;
        let n = self.tunnels.len();
        let mut i: usize = 0;
        proof {
            assert(tv.skip(0) =~= tv);
        }
        while i < n
            invariant
                old(self)@.wf(),
                n == self.tunnels@.len(),
                self@ == old(self)@,
                tv == self@.tunnels,
                0 <= i <= n,
                spec_find_tunnel(tv, id) == i + spec_find_tunnel(tv.skip(i as int), id),
                forall|j: int| 0 <= j < i ==> tv[j].id != id,
            decreases n - i,
        {
            proof {
                assert(tv.skip(i as int)[0] == tv[i as int]);
                assert(tv.skip(i as int).skip(1) =~= tv.skip(i + 1));
            }
            if self.tunnels[i].id == id {
                let mut t = self.tunnels[i].duplicate();
                t.enabled = enabled;
                self.tunnels.remove(i);
                self.tunnels.insert(i, t);
                let effects: Vec<Effect> = Vec::new();
                proof {
                    assert(self@.tunnels =~= tv.update(
                        i as int,
                        TunnelV { enabled, ..tv[i as int] },
                    ));
                    let r = spec_reduce(old(self)@, ActionV::TunnelToggled(id, enabled), 0);
                    assert(self@ =~~= r.0);
                    assert forall|a: int|
                        0 <= a < self@.tunnels.len() implies #[trigger] self@.tunnels[a].id
                        == tv[a].id by {
                        if a != i as int {
                            assert(self@.tunnels[a] == tv[a]);
                        }
                    }
                    assert forall|a: int, b: int|
                        0 <= a < b < self@.tunnels.len() implies self@.tunnels[a].id
                        != self@.tunnels[b].id by {
                        assert(old(self)@.tunnels[a].id != old(self)@.tunnels[b].id);
                        assert(self@.tunnels[a].id == tv[a].id);
                        assert(self@.tunnels[b].id == tv[b].id);
                    }
                    assert forall|a: int|
                        0 <= a < self@.tunnels.len() implies #[trigger] self@.tunnels[a].id
                        < self@.next_tunnel_id by {
                        assert(old(self)@.tunnels[a].id < old(self)@.next_tunnel_id);
                        assert(self@.tunnels[a].id == tv[a].id);
                    }
                    assert(self@.wf());
                }
                return effects;
            }
            i += 1;
        }
        proof {
            assert(tv.skip(n as int) =~= Seq::<TunnelV>::empty());
        }
        let effects: Vec<Effect> = Vec::new();
        proof {
            let r = spec_reduce(old(self)@, ActionV::TunnelToggled(id, enabled), 0);
            assert(self@ =~~= r.0);
        }
        effects
    }

    fn on_delete_tunnel(&mut self, idx: usize) -> (effects: Vec<Effect>)
        requires
            old(self)@.wf(),
        ensures
            final(self)@.wf(),
            final(self)@ == spec_reduce(old(self)@, ActionV::DeleteTunnel(idx), 0).0,
            effects_view(effects@) == spec_reduce(old(self)@, ActionV::DeleteTunnel(idx), 0).1,
    {
        let mut effects: Vec<Effect> = Vec::new();
        if idx < self.tunnels.len() {
            if self.tunnels[idx].enabled {
                let conn_copy = match &self.connection {
                    Some(c) => Some(c.duplicate()),
                    None => None,
                };
                if let Some(conn) = conn_copy {
                    let t = self.tunnels[idx].duplicate();
                    effects.push(Effect::SpawnTunnelRemove { conn, tunnel: t });
                }
            } else {
                let id = self.tunnels[idx].id;
                self.remove_tunnel_by_id(id);
                self.fix_tunnel_selection();
                proof {
                    lemma_remove_tunnel_ok(old(self)@.tunnels, id, old(self)@.next_tunnel_id);
                }
            }
        }
        proof {
            let r = spec_reduce(old(self)@, ActionV::DeleteTunnel(idx), 0);
            assert(self@ =~~= r.0);
            assert(effects_view(effects@) =~~= r.1);
        }
        effects
    }

    fn on_tunnel_deleted(&mut self, id: u64) -> (effects: Vec<Effect>)
        requires
            old(self)@.wf(),
        ensures
            final(self)@.wf(),
            final(self)@ == spec_reduce(old(self)@, ActionV::TunnelDeleted(id), 0).0,
            effects@.len() == 0,
    {
        self.remove_tunnel_by_id(id);
        self.fix_tunnel_selection();
        let effects: Vec<Effect> = Vec::new();
        proof {
            lemma_remove_tunnel_ok(old(self)@.tunnels, id, old(self)@.next_tunnel_id);
            let r = spec_reduce(old(self)@, ActionV::TunnelDeleted(id), 0);
            assert(self@ =~~= r.0);
        }
        effects
    }

    fn on_restore_tunnels(&mut self, now: i64) -> (effects: Vec<Effect>)
        requires
            old(self)@.wf(),
        ensures
            final(self)@.wf(),
            final(self)@ == spec_reduce(old(self)@, ActionV::RestoreTunnels, now).0,
            effects_view(effects@) == spec_reduce(old(self)@, ActionV::RestoreTunnels, now).1,
    {
        let mut effects: Vec<Effect> = Vec::new();
        let name_opt = match &self.connection_status {
            ConnectionStatus::Connected(n) => Some(n.as_str().to_owned()),
            _ => None,
        };
        match name_opt {
            Some(name) => {
                let saved = self.history.get_saved_tunnels(name.as_str());
                let ghost tv0 = self@.tunnels;
                let ghost next0 = self.next_tunnel_id;
                let ghost sv = saved@.map_values(|t: SavedTunnel| t@);
                let ghost mid = self@;
                let n = saved.len();
                let mut j: usize = 0;
                proof {
                    assert(sv.skip(0) =~= sv);
                    assert(effects_view(effects@) =~= Seq::<EffectV>::empty());
                    assert(Seq::<EffectV>::empty() + spec_restore_saved(tv0, sv, next0, now).2
                        =~= spec_restore_saved(tv0, sv, next0, now).2);
                }
                while j < n
                    invariant
                        n == saved@.len(),
                        sv == saved@.map_values(|t: SavedTunnel| t@),
                        0 <= j <= n,
                        self@ == (AppV {
                            tunnels: self@.tunnels,
                            next_tunnel_id: self@.next_tunnel_id,
                            ..mid
                        }),
                        self@.tunnels.len() >= mid.tunnels.len(),
                        spec_restore_saved(tv0, sv, next0, now).0 == spec_restore_saved(
                            self@.tunnels,
                            sv.skip(j as int),
                            self.next_tunnel_id,
                            now,
                        ).0,
                        spec_restore_saved(tv0, sv, next0, now).1 == spec_restore_saved(
                            self@.tunnels,
                            sv.skip(j as int),
                            self.next_tunnel_id,
                            now,
                        ).1,
                        spec_restore_saved(tv0, sv, next0, now).2 == effects_view(effects@)
                            + spec_restore_saved(
                            self@.tunnels,
                            sv.skip(j as int),
                            self.next_tunnel_id,
                            now,
                        ).2,
                        forall|a: int, b: int|
                            0 <= a < b < self@.tunnels.len() ==> self@.tunnels[a].id
                                != self@.tunnels[b].id,
                        forall|a: int|
                            0 <= a < self@.tunnels.len() ==> #[trigger] self@.tunnels[a].id
                                < self.next_tunnel_id,
                    decreases n - j,
                {
                    proof {
                        assert(sv.skip(j as int)[0] == sv[j as int]);
                        assert(sv.skip(j as int).skip(1) =~= sv.skip(j + 1));
                    }
                    if self.next_tunnel_id < u64::MAX {
                        let ghost pre_tv = self@.tunnels;
                        let ghost pre_effs = effects_view(effects@);
                        let st = &saved[j];
                        let id = self.next_tunnel_id;
                        let t = Tunnel::new(
                            id,
                            st.local_port,
                            st.remote_host.as_str().to_owned(),
                            st.remote_port,
                            now,
                        );
                        proof {
                            assert(t@ =~~= spec_tunnel_from_saved(id, sv[j as int], now));
                        }
                        let pos = self.tunnels.len();
                        self.tunnels.push(t);
                        effects.push(Effect::Dispatch(Action::ToggleTunnel(pos)));
                        self.next_tunnel_id = id + 1;
                        proof {
                            assert(self@.tunnels =~= pre_tv.push(
                                spec_tunnel_from_saved(id, sv[j as int], now),
                            ));
                            assert(effects_view(effects@) =~= pre_effs.push(
                                EffectV::Dispatch(ActionV::ToggleTunnel(pos)),
                            ));
                            let stepped = spec_restore_saved(
                                self@.tunnels,
                                sv.skip(j + 1),
                                self.next_tunnel_id,
                                now,
                            );
                            assert(spec_restore_saved(pre_tv, sv.skip(j as int), id, now).2
                                == seq![EffectV::Dispatch(ActionV::ToggleTunnel(pos))]
                                + stepped.2);
                            assert(pre_effs + (seq![
                                EffectV::Dispatch(ActionV::ToggleTunnel(pos)),
                            ] + stepped.2) =~= (pre_effs + seq![
                                EffectV::Dispatch(ActionV::ToggleTunnel(pos)),
                            ]) + stepped.2);
                            assert(effects_view(effects@) =~= pre_effs + seq![
                                EffectV::Dispatch(ActionV::ToggleTunnel(pos)),
                            ]);
                            assert(self@ =~~= (AppV {
                                tunnels: self@.tunnels,
                                next_tunnel_id: self@.next_tunnel_id,
                                ..mid
                            }));
                        }
                    }
                    j += 1;
                }
                proof {
                    assert(sv.skip(n as int) =~= Seq::<SavedTunnelV>::empty());
                }
                if self.tunnels.len() > 0 {
                    self.tunnel_selected = Some(0);
                    self.active_panel = Panel::Tunnels;
                }
                proof {
                    let r = spec_reduce(old(self)@, ActionV::RestoreTunnels, now);
                    assert(effects_view(effects@) + Seq::<EffectV>::empty() =~= effects_view(
                        effects@,
                    ));
                    assert(self@ =~~= r.0);
                    assert(effects_view(effects@) =~~= r.1);
                }
            },
            None => {
                proof {
                    let r = spec_reduce(old(self)@, ActionV::RestoreTunnels, now);
                    assert(self@ =~~= r.0);
                    assert(effects_view(effects@) =~~= r.1);
                }
            },
        }
        effects
    }
}

impl App {
    /// Apply one action at time `now`: the one place application state
    /// changes. Returns the effects to hand to the runner; the state
    /// change and the effects are exactly those of `spec_reduce`.
    #[verifier::rlimit(60)]
    pub fn apply(&mut self, action: Action, now: i64) -> (effects: Vec<Effect>)
        requires
            old(self)@.wf(),
        ensures
            final(self)@.wf(),
            final(self)@ == spec_reduce(old(self)@, action@, now).0,
            effects_view(effects@) == spec_reduce(old(self)@, action@, now).1,
    {
        match action {
            Action::Tick => self.on_tick(now),
            Action::Render => Vec::new(),
            Action::Quit => self.on_quit(now),
            Action::NavigateUp => self.on_navigate(-1),
            Action::NavigateDown => self.on_navigate(1),
            Action::Select => self.on_select(),
            Action::SwitchPanel => {
                self.active_panel = match self.active_panel {
                    Panel::Hosts => Panel::Tunnels,
                    Panel::Tunnels => Panel::Hosts,
                };
                proof {
                    assert(self@ =~~= spec_reduce(old(self)@, ActionV::SwitchPanel, now).0);
                }
                Vec::new()
            },
            Action::StartSearch => {
                if self.active_panel == Panel::Hosts {
                    self.search_mode = true;
                    self.search_query = String::new();
                }
                proof {
                    assert(self@ =~~= spec_reduce(old(self)@, ActionV::StartSearch, now).0);
                }
                Vec::new()
            },
            Action::SearchInput(c) => {
                if self.search_mode {
                    push_char(&mut self.search_query, c);
                    self.on_search_changed();
                }
                proof {
                    assert(self@ =~~= spec_reduce(old(self)@, ActionV::SearchInput(c), now).0);
                }
                Vec::new()
            },
            Action::SearchBackspace => {
                if self.search_mode {
                    pop_char(&mut self.search_query);
                    self.on_search_changed();
                }
                proof {
                    assert(self@ =~~= spec_reduce(old(self)@, ActionV::SearchBackspace, now).0);
                }
                Vec::new()
            },
            Action::EndSearch => {
                self.search_mode = false;
                proof {
                    assert(self@ =~~= spec_reduce(old(self)@, ActionV::EndSearch, now).0);
                }
                Vec::new()
            },
            Action::ShowHelp => {
                self.show_help = !self.show_help;
                proof {
                    assert(self@ =~~= spec_reduce(old(self)@, ActionV::ShowHelp, now).0);
                }
                Vec::new()
            },
            Action::Connect(idx) => self.on_connect(idx),
            Action::ConnectionEstablished => self.on_connection_established(now),
            Action::ConnectionFailed(msg) => self.on_connection_failed(msg),
            Action::Disconnect => self.on_disconnect(),
            Action::Disconnected => self.on_disconnected(),
            Action::ShowAddTunnelModal => self.on_show_add_modal(),
            Action::ModalInput(c) => self.on_modal_input(c),
            Action::ModalBackspace => self.on_modal_backspace(),
            Action::ModalNextField => self.on_modal_next_field(),
            Action::ModalSubmit => self.on_modal_submit(),
            Action::ModalValidated(lp, host, rp) => self.on_modal_validated(lp, host, rp, now),
            Action::ModalPortBusy(p) => self.on_modal_port_busy(p),
            Action::TunnelFailed(msg) => self.on_tunnel_failed(msg),
            Action::ToggleTunnel(idx) => self.on_toggle_tunnel(idx),
            Action::TunnelToggled(id, en) => self.on_tunnel_toggled(id, en),
            Action::DeleteTunnel(idx) => self.on_delete_tunnel(idx),
            Action::TunnelDeleted(id) => self.on_tunnel_deleted(id),
            Action::RestoreTunnels => self.on_restore_tunnels(now),
        }
    }

    /// Apply one action at the current wall-clock time. Every fact of the
    /// transition that does not depend on the clock follows from
    /// `spec_reduce` with the witnessed time.
    pub fn update(&mut self, action: Action) -> (effects: Vec<Effect>)
        requires
            old(self)@.wf(),
        ensures
            final(self)@.wf(),
            exists|now: i64|
                {
                    &&& final(self)@ == #[trigger] spec_reduce(old(self)@, action@, now).0
                    &&& effects_view(effects@) == spec_reduce(old(self)@, action@, now).1
                },
    {
        let now = crate::outside::now_millis();
        let effects = self.apply(action, now);
        proof {
            assert(final(self)@ == spec_reduce(old(self)@, action@, now).0 && effects_view(
                effects@,
            ) == spec_reduce(old(self)@, action@, now).1);
        }
        effects
    }
}

// ---------- ordering hosts by history ----------

/// The sort key of a host: when it was last used, if it is in the history.
pub open spec fn spec_host_key(hist: Seq<HistoryEntryV>, h: HostV) -> Option<i64> {
    if crate::history::spec_has_host(hist, h.name) {
        Some(hist[crate::history::spec_find_host(hist, h.name)].info.last_used)
    } else {
        None
    }
}

/// Key order: recently used hosts first, hosts with history before hosts
/// without, and the rest by name.
pub open spec fn spec_key_le(ka: Option<i64>, na: Seq<char>, kb: Option<i64>, nb: Seq<char>)
    -> bool {
    match (ka, kb) {
        (Some(x), Some(y)) => x >= y,
        (Some(_), None) => true,
        (None, Some(_)) => false,
        (None, None) => spec_lex_le(na, nb),
    }
}

/// `a` sorts at or before `b` under the history ordering.
pub open spec fn spec_host_le(hist: Seq<HistoryEntryV>, a: HostV, b: HostV) -> bool {
    spec_key_le(spec_host_key(hist, a), a.name, spec_host_key(hist, b), b.name)
}

proof fn lemma_key_le_total(ka: Option<i64>, na: Seq<char>, kb: Option<i64>, nb: Seq<char>)
    ensures
        spec_key_le(ka, na, kb, nb) || spec_key_le(kb, nb, ka, na),
{
    if ka is None && kb is None {
        lemma_lex_le_total(na, nb);
    }
}

proof fn lemma_key_le_trans(
    ka: Option<i64>,
    na: Seq<char>,
    kb: Option<i64>,
    nb: Seq<char>,
    kc: Option<i64>,
    nc: Seq<char>,
)
    requires
        spec_key_le(ka, na, kb, nb),
        spec_key_le(kb, nb, kc, nc),
    ensures
        spec_key_le(ka, na, kc, nc),
{
    if ka is None && kb is None && kc is None {
        lemma_lex_le_trans(na, nb, nc);
    }
}

/// Decorated pair view: sort key and host.
pub open spec fn dpview(s: Seq<(Option<i64>, SshHost)>) -> Seq<(Option<i64>, HostV)> {
    s.map_values(|p: (Option<i64>, SshHost)| (p.0, p.1@))
}

/// Key order on decorated pairs.
pub open spec fn dple(a: (Option<i64>, HostV), b: (Option<i64>, HostV)) -> bool {
    spec_key_le(a.0, a.1.name, b.0, b.1.name)
}

/// Whether `a` sorts at or before `b`, comparing by key then name.
fn host_pair_le(a: &(Option<i64>, SshHost), b: &(Option<i64>, SshHost)) -> (r: bool)
    ensures
        r == dple((a.0, a.1@), (b.0, b.1@)),
{
    match (&a.0, &b.0) {
        (Some(x), Some(y)) => *x >= *y,
        (Some(_), None) => true,
        (None, Some(_)) => false,
        (None, None) => str_lex_le(a.1.name.as_str(), b.1.name.as_str()),
    }
}

/// Sort decorated hosts by key order; the result holds the same pairs.
fn sort_decorated(v: Vec<(Option<i64>, SshHost)>) -> (r: Vec<(Option<i64>, SshHost)>)
    ensures
        dpview(r@).to_multiset() == dpview(v@).to_multiset(),
        dpview(r@).map_values(|p: (Option<i64>, HostV)| p.1).to_multiset() == dpview(
            v@,
        ).map_values(|p: (Option<i64>, HostV)| p.1).to_multiset(),
        forall|i: int, j: int|
            0 <= i < j < r@.len() ==> dple(#[trigger] dpview(r@)[i], #[trigger] dpview(r@)[j]),
{
    let ghost orig = dpview(v@);
    let ghost proj = |p: (Option<i64>, HostV)| p.1;
    let mut v = v;
    let mut out: Vec<(Option<i64>, SshHost)> = Vec::new();
    proof {
        broadcast use vstd::seq_lib::group_to_multiset_ensures;
        broadcast use vstd::multiset::group_multiset_axioms;

        assert(dpview(out@) =~= Seq::<(Option<i64>, HostV)>::empty());
        assert(dpview(out@).map_values(proj) =~= Seq::<HostV>::empty());
        assert(dpview(out@).to_multiset() =~= vstd::multiset::Multiset::<(
            Option<i64>,
            HostV,
        )>::empty());
        assert(dpview(out@).map_values(proj).to_multiset() =~= vstd::multiset::Multiset::<
            HostV,
        >::empty());
        assert(dpview(out@).to_multiset().add(dpview(v@).to_multiset()) =~= orig.to_multiset());
        assert(dpview(out@).map_values(proj).to_multiset().add(
            dpview(v@).map_values(proj).to_multiset(),
        ) =~= orig.map_values(proj).to_multiset());
    }
    while v.len() > 0
        invariant
            dpview(out@).to_multiset().add(dpview(v@).to_multiset()) == orig.to_multiset(),
            dpview(out@).map_values(proj).to_multiset().add(
                dpview(v@).map_values(proj).to_multiset(),
            ) == orig.map_values(proj).to_multiset(),
            proj == (|p: (Option<i64>, HostV)| p.1),
            forall|i: int, j: int|
                0 <= i < j < out@.len() ==> dple(
                    #[trigger] dpview(out@)[i],
                    #[trigger] dpview(out@)[j],
                ),
            forall|a: int, b: int|
                0 <= a < out@.len() && 0 <= b < v@.len() ==> dple(
                    #[trigger] dpview(out@)[a],
                    #[trigger] dpview(v@)[b],
                ),
        decreases v@.len(),
    {
        let n = v.len();
        let mut m: usize = 0;
        let mut j: usize = 1;
        proof {
            let pv = dpview(v@);
            lemma_key_le_total(pv[0].0, pv[0].1.name, pv[0].0, pv[0].1.name);
        }
        while j < n
            invariant
                n == v@.len(),
                0 <= m < j <= n,
                forall|k: int| 0 <= k < j ==> dple(dpview(v@)[m as int], #[trigger] dpview(v@)[k]),
            decreases n - j,
        {
            if !host_pair_le(&v[m], &v[j]) {
                proof {
                    let pv = dpview(v@);
                    lemma_key_le_total(pv[m as int].0, pv[m as int].1.name, pv[j as int].0, pv[j as int].1.name);
                    assert(dple(pv[j as int], pv[m as int]));
                    assert forall|k: int| 0 <= k < j + 1 implies dple(
                        pv[j as int],
                        #[trigger] pv[k],
                    ) by {
                        if k < j {
                            lemma_key_le_trans(
                                pv[j as int].0,
                                pv[j as int].1.name,
                                pv[m as int].0,
                                pv[m as int].1.name,
                                pv[k].0,
                                pv[k].1.name,
                            );
                        } else {
                            lemma_key_le_total(pv[k].0, pv[k].1.name, pv[k].0, pv[k].1.name);
                        }
                    }
                }
                m = j;
            }
            j += 1;
        }
        let ghost pre_v = dpview(v@);
        let ghost pre_out = dpview(out@);
        let x = v.remove(m);
        let ghost xv = (x.0, x.1@);
        out.push(x);
        proof {
            broadcast use vstd::seq_lib::group_to_multiset_ensures;
            broadcast use vstd::multiset::group_multiset_axioms;

            assert(pre_v[m as int] == xv);
            assert(dpview(v@) =~= pre_v.remove(m as int));
            assert(dpview(out@) =~= pre_out.push(xv));
            assert(pre_v.contains(xv)) by {
                assert(pre_v[m as int] == xv);
            }
            assert(pre_out.push(xv).to_multiset() =~= pre_out.to_multiset().insert(xv));
            assert(pre_v.remove(m as int).to_multiset() =~= pre_v.to_multiset().remove(
                pre_v[m as int],
            ));
            assert(dpview(out@).to_multiset().add(dpview(v@).to_multiset())
                =~= pre_out.to_multiset().add(pre_v.to_multiset()));
            // the same bookkeeping for the projected hosts
            assert(dpview(out@).map_values(proj) =~= pre_out.map_values(proj).push(xv.1));
            assert(dpview(v@).map_values(proj) =~= pre_v.map_values(proj).remove(m as int));
            assert(pre_v.map_values(proj)[m as int] == xv.1);
            assert(pre_v.map_values(proj).contains(xv.1)) by {
                assert(pre_v.map_values(proj)[m as int] == xv.1);
            }
            assert(pre_out.map_values(proj).push(xv.1).to_multiset() =~= pre_out.map_values(
                proj,
            ).to_multiset().insert(xv.1));
            assert(pre_v.map_values(proj).remove(m as int).to_multiset() =~= pre_v.map_values(
                proj,
            ).to_multiset().remove(pre_v.map_values(proj)[m as int]));
            assert(dpview(out@).map_values(proj).to_multiset().add(
                dpview(v@).map_values(proj).to_multiset(),
            ) =~= pre_out.map_values(proj).to_multiset().add(pre_v.map_values(proj).to_multiset()));
            assert forall|i: int, j2: int|
                0 <= i < j2 < out@.len() implies dple(
                #[trigger] dpview(out@)[i],
                #[trigger] dpview(out@)[j2],
            ) by {
                if j2 < pre_out.len() {
                    assert(dpview(out@)[i] == pre_out[i]);
                    assert(dpview(out@)[j2] == pre_out[j2]);
                } else {
                    assert(dpview(out@)[j2] == xv);
                    assert(dpview(out@)[i] == pre_out[i]);
                }
            }
            assert forall|a: int, b: int|
                0 <= a < out@.len() && 0 <= b < v@.len() implies dple(
                #[trigger] dpview(out@)[a],
                #[trigger] dpview(v@)[b],
            ) by {
                assert(pre_v.remove(m as int)[b] == (if b < m as int {
                    pre_v[b]
                } else {
                    pre_v[b + 1]
                }));
                if a < pre_out.len() {
                    assert(dpview(out@)[a] == pre_out[a]);
                    assert(dple(pre_out[a], dpview(v@)[b]));
                } else {
                    assert(dpview(out@)[a] == xv);
                    assert(dple(xv, dpview(v@)[b]));
                }
            }
        }
    }
    proof {
        broadcast use vstd::seq_lib::group_to_multiset_ensures;
        broadcast use vstd::multiset::group_multiset_axioms;

        assert(dpview(v@) =~= Seq::<(Option<i64>, HostV)>::empty());
        assert(dpview(v@).to_multiset() =~= vstd::multiset::Multiset::<(
            Option<i64>,
            HostV,
        )>::empty());
        assert(dpview(out@).to_multiset() =~= orig.to_multiset());
        assert(dpview(v@).map_values(proj) =~= Seq::<HostV>::empty());
        assert(dpview(v@).map_values(proj).to_multiset() =~= vstd::multiset::Multiset::<
            HostV,
        >::empty());
        assert(dpview(out@).map_values(proj).to_multiset() =~= orig.map_values(proj).to_multiset());
        assert(dpview(out@).map_values(|p: (Option<i64>, HostV)| p.1).to_multiset()
            =~= dpview(out@).map_values(proj).to_multiset());
        assert(orig.map_values(|p: (Option<i64>, HostV)| p.1).to_multiset() =~= orig.map_values(
            proj,
        ).to_multiset());
    }
    out
}

impl App {
    /// Sort hosts so recently used ones appear first; ties among
    /// never-used hosts go by name. The filter is rebuilt and the first
    /// visible host selected, if any.
    pub fn sort_hosts_by_history(&mut self)
        requires
            old(self)@.wf(),
        ensures
            final(self)@.wf(),
            final(self)@.hosts.to_multiset() == old(self)@.hosts.to_multiset(),
            forall|i: int, j: int|
                0 <= i < j < final(self)@.hosts.len() ==> spec_host_le(
                    old(self)@.history,
                    #[trigger] final(self)@.hosts[i],
                    #[trigger] final(self)@.hosts[j],
                ),
            final(self)@.filtered_host_indices == spec_filtered(
                final(self)@.hosts,
                old(self)@.search_query,
            ),
            final(self)@.host_selected == spec_select_first(final(self)@.filtered_host_indices),
            final(self)@ == (AppV {
                hosts: final(self)@.hosts,
                filtered_host_indices: final(self)@.filtered_host_indices,
                host_selected: final(self)@.host_selected,
                ..old(self)@
            }),
    {
        let ghost histv = self@.history;
        let ghost hv0 = self@.hosts;
        let n = self.hosts.len();
        let mut decorated: Vec<(Option<i64>, SshHost)> = Vec::new();
        let mut i: usize = 0;
        while i < n
            invariant
                n == self.hosts@.len(),
                histv == self@.history,
                hv0 == self@.hosts,
                0 <= i <= n,
                decorated@.len() == i,
                forall|k: int|
                    0 <= k < i ==> #[trigger] dpview(decorated@)[k] == (
                    spec_host_key(histv, hv0[k]),
                    hv0[k],
                    ),
            decreases n - i,
        {
            let ghost pre_dv = dpview(decorated@);
            let h = clone_host(&self.hosts[i]);
            let key = match self.history.get(h.name.as_str()) {
                Some(info) => Some(info.last_used),
                None => None,
            };
            proof {
                assert(h@ == hv0[i as int]);
                assert(key == spec_host_key(histv, hv0[i as int]));
            }
            decorated.push((key, h));
            proof {
                assert(dpview(decorated@) =~= pre_dv.push((key, hv0[i as int])));
            }
            i += 1;
        }
        let ghost dv = dpview(decorated@);
        proof {
            assert(dv.map_values(|p: (Option<i64>, HostV)| p.1) =~= hv0);
        }
        let sorted = sort_decorated(decorated);
        let ghost sv = dpview(sorted@);
        let mut out: Vec<SshHost> = Vec::new();
        let mut sorted = sorted;
        proof {
            assert(out@.map_values(|h: SshHost| h@) =~= Seq::<HostV>::empty());
            assert(sv.skip(0) =~= sv);
        }
        let mut j: usize = 0;
        let m = sorted.len();
        while j < m
            invariant
                m == sorted@.len(),
                sv == dpview(sorted@),
                0 <= j <= m,
                out@.len() == j,
                forall|k: int| 0 <= k < j ==> out@.map_values(|h: SshHost| h@)[k] == (
                #[trigger] sv[k]).1,
            decreases m - j,
        {
            let ghost pre_ov = out@.map_values(|h: SshHost| h@);
            let h = clone_host(&sorted[j].1);
            out.push(h);
            proof {
                assert(out@.map_values(|h2: SshHost| h2@) =~= pre_ov.push(sv[j as int].1));
            }
            j += 1;
        }
        self.hosts = out;
        self.rebuild_filtered_indices();
        if self.filtered_host_indices.len() > 0 {
            self.host_selected = Some(0);
        } else {
            self.host_selected = None;
        }
        proof {
            broadcast use vstd::seq_lib::group_to_multiset_ensures;
            broadcast use vstd::multiset::group_multiset_axioms;

            assert(self.hosts@.len() == self.hosts.len());
            lemma_filtered_ok(self@.hosts, self@.search_query);
            // the emitted hosts are exactly the sorted pairs' hosts, in order
            assert(self@.hosts =~= sv.map_values(|p: (Option<i64>, HostV)| p.1));
            // multiset: emitted == sorted projection == decorated projection == the old hosts
            assert(self@.hosts.to_multiset() == hv0.to_multiset());
            // every sorted pair carries the key of its host: it is one of the
            // decorated pairs, whose keys were computed from the history
            assert forall|k: int| 0 <= k < sv.len() implies (#[trigger] sv[k]).0 == spec_host_key(
                histv,
                sv[k].1,
            ) by {
                assert(sv.contains(sv[k])) by {
                    assert(sv[k] == sv[k]);
                }
                assert(sv.to_multiset().count(sv[k]) > 0);
                assert(dv.to_multiset().count(sv[k]) > 0);
                assert(dv.contains(sv[k]));
                let idx = choose|idx: int| 0 <= idx < dv.len() && dv[idx] == sv[k];
                assert(dv[idx] == (spec_host_key(histv, hv0[idx]), hv0[idx]));
            }
            assert forall|a: int, b: int|
                0 <= a < b < self@.hosts.len() implies spec_host_le(
                histv,
                #[trigger] self@.hosts[a],
                #[trigger] self@.hosts[b],
            ) by {
                assert(self@.hosts[a] == sv[a].1);
                assert(self@.hosts[b] == sv[b].1);
                assert(dple(sv[a], sv[b]));
                assert(sv[a].0 == spec_host_key(histv, sv[a].1));
                assert(sv[b].0 == spec_host_key(histv, sv[b].1));
            }
            assert(self@ =~~= (AppV {
                hosts: self@.hosts,
                filtered_host_indices: self@.filtered_host_indices,
                host_selected: self@.host_selected,
                ..old(self)@
            }));
        }
    }
}

// ---------- keyboard mapping ----------

/// Which action a key asks for, given the current overlay state. `None`
/// means the key does nothing right now.
pub open spec fn spec_map_key(a: AppV, key: Key) -> Option<ActionV> {
    if key == Key::CtrlC {
        Some(ActionV::Quit)
    } else if a.add_modal is Some {
        match key {
            Key::Esc => Some(ActionV::Quit),
            Key::Enter => Some(ActionV::ModalSubmit),
            Key::Tab => Some(ActionV::ModalNextField),
            Key::Backspace => Some(ActionV::ModalBackspace),
            Key::Char(c) => Some(ActionV::ModalInput(c)),
            _ => None,
        }
    } else if a.search_mode {
        match key {
            Key::Esc => Some(ActionV::Quit),
            Key::Enter => Some(ActionV::EndSearch),
            Key::Backspace => Some(ActionV::SearchBackspace),
            Key::Char(c) => Some(ActionV::SearchInput(c)),
            _ => None,
        }
    } else if a.show_help {
        match key {
            Key::Esc => Some(ActionV::ShowHelp),
            Key::Char(c) => if c == 'q' || c == '?' {
                Some(ActionV::ShowHelp)
            } else {
                None
            },
            _ => None,
        }
    } else {
        match key {
            Key::Esc => Some(ActionV::Quit),
            Key::Up => Some(ActionV::NavigateUp),
            Key::Down => Some(ActionV::NavigateDown),
            Key::Enter => Some(ActionV::Select),
            Key::Tab => Some(ActionV::SwitchPanel),
            Key::BackTab => Some(ActionV::SwitchPanel),
            Key::Backspace => None,
            Key::Char(c) => {
                if c == 'q' {
                    Some(ActionV::Quit)
                } else if c == 'k' {
                    Some(ActionV::NavigateUp)
                } else if c == 'j' {
                    Some(ActionV::NavigateDown)
                } else if c == '/' {
                    Some(ActionV::StartSearch)
                } else if c == '?' {
                    Some(ActionV::ShowHelp)
                } else if c == 'x' {
                    Some(ActionV::Disconnect)
                } else if c == 'a' {
                    Some(ActionV::ShowAddTunnelModal)
                } else if c == 'r' {
                    Some(ActionV::RestoreTunnels)
                } else if c == ' ' {
                    if a.active_panel == Panel::Tunnels && a.tunnel_selected is Some {
                        Some(ActionV::ToggleTunnel(a.tunnel_selected->0))
                    } else {
                        None
                    }
                } else if c == 'd' {
                    if a.active_panel == Panel::Tunnels && a.tunnel_selected is Some {
                        Some(ActionV::DeleteTunnel(a.tunnel_selected->0))
                    } else {
                        None
                    }
                } else {
                    None
                }
            },
            _ => None,
        }
    }
}

/// Translate one key press into an action, honouring the active overlay.
pub fn map_key_to_action(app: &App, key: Key) -> (r: Option<Action>)
    ensures
        (match r {
            Some(act) => spec_map_key(app@, key) == Some(act@),
            None => spec_map_key(app@, key) is None,
        }),
{
    if key == Key::CtrlC {
        return Some(Action::Quit);
    }
    if app.add_modal.is_some() {
        return match key {
            Key::Esc => Some(Action::Quit),
            Key::Enter => Some(Action::ModalSubmit),
            Key::Tab => Some(Action::ModalNextField),
            Key::Backspace => Some(Action::ModalBackspace),
            Key::Char(c) => Some(Action::ModalInput(c)),
            _ => None,
        };
    }
    if app.search_mode {
        return match key {
            Key::Esc => Some(Action::Quit),
            Key::Enter => Some(Action::EndSearch),
            Key::Backspace => Some(Action::SearchBackspace),
            Key::Char(c) => Some(Action::SearchInput(c)),
            _ => None,
        };
    }
    if app.show_help {
        return match key {
            Key::Esc => Some(Action::ShowHelp),
            Key::Char(c) => if c == 'q' || c == '?' {
                Some(Action::ShowHelp)
            } else {
                None
            },
            _ => None,
        };
    }
    match key {
        Key::Esc => Some(Action::Quit),
        Key::Up => Some(Action::NavigateUp),
        Key::Down => Some(Action::NavigateDown),
        Key::Enter => Some(Action::Select),
        Key::Tab => Some(Action::SwitchPanel),
        Key::BackTab => Some(Action::SwitchPanel),
        Key::Backspace => None,
        Key::Char(c) => {
            if c == 'q' {
                Some(Action::Quit)
            } else if c == 'k' {
                Some(Action::NavigateUp)
            } else if c == 'j' {
                Some(Action::NavigateDown)
            } else if c == '/' {
                Some(Action::StartSearch)
            } else if c == '?' {
                Some(Action::ShowHelp)
            } else if c == 'x' {
                Some(Action::Disconnect)
            } else if c == 'a' {
                Some(Action::ShowAddTunnelModal)
            } else if c == 'r' {
                Some(Action::RestoreTunnels)
            } else if c == ' ' {
                match (app.active_panel, app.tunnel_selected) {
                    (Panel::Tunnels, Some(s)) => Some(Action::ToggleTunnel(s)),
                    _ => None,
                }
            } else if c == 'd' {
                match (app.active_panel, app.tunnel_selected) {
                    (Panel::Tunnels, Some(s)) => Some(Action::DeleteTunnel(s)),
                    _ => None,
                }
            } else {
                None
            }
        },
        _ => None,
    }
}

} // verus!
