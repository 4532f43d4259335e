//! The message taxonomy: actions going into the reducer and effects
//! coming out of it.

use vstd::prelude::*;

use crate::connection::{ConnV, ConnectionManager};
use crate::history::{History, HistoryEntryV};
use crate::tunnel::{Tunnel, TunnelV};

verus! {

/// One message for the reducer: user intents, timer ticks, and the
/// completion reports of detached tasks, merged into a single ordered
/// intake.
#[derive(Debug)]
pub enum Action {
    Tick,
    Render,
    Quit,
    NavigateUp,
    NavigateDown,
    Select,
    SwitchPanel,
    StartSearch,
    SearchInput(char),
    SearchBackspace,
    EndSearch,
    ShowHelp,
    Connect(usize),
    ConnectionEstablished,
    ConnectionFailed(String),
    Disconnect,
    Disconnected,
    ShowAddTunnelModal,
    ModalInput(char),
    ModalBackspace,
    ModalNextField,
    ModalSubmit,
    ModalValidated(u16, String, u16),
    ModalPortBusy(u16),
    TunnelFailed(String),
    ToggleTunnel(usize),
    TunnelToggled(u64, bool),
    DeleteTunnel(usize),
    TunnelDeleted(u64),
    RestoreTunnels,
}

/// Mathematical image of an `Action`.
#[verifier::ext_equal]
pub enum ActionV {
    Tick,
    Render,
    Quit,
    NavigateUp,
    NavigateDown,
    Select,
    SwitchPanel,
    StartSearch,
    SearchInput(char),
    SearchBackspace,
    EndSearch,
    ShowHelp,
    Connect(usize),
    ConnectionEstablished,
    ConnectionFailed(Seq<char>),
    Disconnect,
    Disconnected,
    ShowAddTunnelModal,
    ModalInput(char),
    ModalBackspace,
    ModalNextField,
    ModalSubmit,
    ModalValidated(u16, Seq<char>, u16),
    ModalPortBusy(u16),
    TunnelFailed(Seq<char>),
    ToggleTunnel(usize),
    TunnelToggled(u64, bool),
    DeleteTunnel(usize),
    TunnelDeleted(u64),
    RestoreTunnels,
}

impl View for Action {
    type V = ActionV;

    open spec fn view(&self) -> ActionV {
        match self {
            Action::Tick => ActionV::Tick,
            Action::Render => ActionV::Render,
            Action::Quit => ActionV::Quit,
            Action::NavigateUp => ActionV::NavigateUp,
            Action::NavigateDown => ActionV::NavigateDown,
            Action::Select => ActionV::Select,
            Action::SwitchPanel => ActionV::SwitchPanel,
            Action::StartSearch => ActionV::StartSearch,
            Action::SearchInput(c) => ActionV::SearchInput(*c),
            Action::SearchBackspace => ActionV::SearchBackspace,
            Action::EndSearch => ActionV::EndSearch,
            Action::ShowHelp => ActionV::ShowHelp,
            Action::Connect(i) => ActionV::Connect(*i),
            Action::ConnectionEstablished => ActionV::ConnectionEstablished,
            Action::ConnectionFailed(m) => ActionV::ConnectionFailed(m@),
            Action::Disconnect => ActionV::Disconnect,
            Action::Disconnected => ActionV::Disconnected,
            Action::ShowAddTunnelModal => ActionV::ShowAddTunnelModal,
            Action::ModalInput(c) => ActionV::ModalInput(*c),
            Action::ModalBackspace => ActionV::ModalBackspace,
            Action::ModalNextField => ActionV::ModalNextField,
            Action::ModalSubmit => ActionV::ModalSubmit,
            Action::ModalValidated(lp, h, rp) => ActionV::ModalValidated(*lp, h@, *rp),
            Action::ModalPortBusy(p) => ActionV::ModalPortBusy(*p),
            Action::TunnelFailed(m) => ActionV::TunnelFailed(m@),
            Action::ToggleTunnel(i) => ActionV::ToggleTunnel(*i),
            Action::TunnelToggled(id, e) => ActionV::TunnelToggled(*id, *e),
            Action::DeleteTunnel(i) => ActionV::DeleteTunnel(*i),
            Action::TunnelDeleted(id) => ActionV::TunnelDeleted(*id),
            Action::RestoreTunnels => ActionV::RestoreTunnels,
        }
    }
}

/// A keyboard input, as the reducer's key mapping understands it. The
/// terminal layer translates its raw events into these.
#[derive(Debug, Clone, Copy, PartialEq, Eq, Structural)]
pub enum Key {
    CtrlC,
    Esc,
    Enter,
    Tab,
    BackTab,
    Backspace,
    Up,
    Down,
    Char(char),
}

/// One unit of outside work the reducer asks for. The reducer never does
/// I/O itself: it returns effects, each carrying a frozen snapshot of
/// whatever the task needs, and the runner turns outcomes into new
/// actions on the channel.
///
/// Two patterns are kept distinct on purpose: `SpawnDisconnectForget` is
/// fire-and-forget (no completion message may ever come back from it),
/// while the other spawns each report exactly one completion action.
#[derive(Debug)]
pub enum Effect {
    /// Put this action back on the channel.
    Dispatch(Action),
    /// Tear down a superseded session; its outcome is discarded.
    SpawnDisconnectForget(ConnectionManager),
    /// Establish a session; reports ConnectionEstablished or
    /// ConnectionFailed.
    SpawnConnect(ConnectionManager),
    /// Tear down the current session; reports Disconnected.
    SpawnDisconnect(ConnectionManager),
    /// Add or cancel a forwarding rule; reports TunnelToggled(id, enable)
    /// or TunnelFailed.
    SpawnTunnelOp { conn: ConnectionManager, tunnel: Tunnel, enable: bool },
    /// Cancel the rule of a tunnel being deleted; reports
    /// TunnelDeleted(id) in every outcome.
    SpawnTunnelRemove { conn: ConnectionManager, tunnel: Tunnel },
    /// Probe session liveness; reports ConnectionFailed on failure, and
    /// nothing on success.
    SpawnHealthCheck(ConnectionManager),
    /// Probe whether the local port can be bound; reports ModalValidated
    /// on success and ModalPortBusy when taken.
    ProbePort { local_port: u16, remote_host: String, remote_port: u16 },
    /// Persist this history snapshot, best effort.
    SaveHistory(History),
}

/// Mathematical image of an `Effect`.
#[verifier::ext_equal]
pub enum EffectV {
    Dispatch(ActionV),
    SpawnDisconnectForget(ConnV),
    SpawnConnect(ConnV),
    SpawnDisconnect(ConnV),
    SpawnTunnelOp { conn: ConnV, tunnel: TunnelV, enable: bool },
    SpawnTunnelRemove { conn: ConnV, tunnel: TunnelV },
    SpawnHealthCheck(ConnV),
    ProbePort { local_port: u16, remote_host: Seq<char>, remote_port: u16 },
    SaveHistory(Seq<HistoryEntryV>),
}

impl View for Effect {
    type V = EffectV;

    open spec fn view(&self) -> EffectV {
        match self {
            Effect::Dispatch(a) => EffectV::Dispatch(a@),
            Effect::SpawnDisconnectForget(c) => EffectV::SpawnDisconnectForget(c@),
            Effect::SpawnConnect(c) => EffectV::SpawnConnect(c@),
            Effect::SpawnDisconnect(c) => EffectV::SpawnDisconnect(c@),
            Effect::SpawnTunnelOp { conn, tunnel, enable } => EffectV::SpawnTunnelOp {
                conn: conn@,
                tunnel: tunnel@,
                enable: *enable,
            },
            Effect::SpawnTunnelRemove { conn, tunnel } => EffectV::SpawnTunnelRemove {
                conn: conn@,
                tunnel: tunnel@,
            },
            Effect::SpawnHealthCheck(c) => EffectV::SpawnHealthCheck(c@),
            Effect::ProbePort { local_port, remote_host, remote_port } => EffectV::ProbePort {
                local_port: *local_port,
                remote_host: remote_host@,
                remote_port: *remote_port,
            },
            Effect::SaveHistory(h) => EffectV::SaveHistory(h@),
        }
    }
}

/// The views of a sequence of effects.
pub open spec fn effects_view(v: Seq<Effect>) -> Seq<EffectV> {
    v.map_values(|e: Effect| e@)
}

} // verus!
