//! The general laws of the orchestration engine, proved over the
//! transition relation `spec_reduce`.

use vstd::prelude::*;

use crate::action::{ActionV, EffectV};
use crate::app::{
    spec_find_tunnel, spec_has_tunnel, spec_reduce, spec_remove_tunnel, AppV, StatusV,
};
use crate::history::{
    spec_find_host, spec_has_host, spec_saved_tunnels, spec_store_tunnels, HistoryEntryV,
};
use crate::tunnel::{spec_saved_of, TunnelV};

verus! {

/// The enabled flag of the tunnel with this identity, if it is in the
/// registry.
pub open spec fn tunnel_flag(s: AppV, id: u64) -> Option<bool> {
    if spec_has_tunnel(s.tunnels, id) {
        Some(s.tunnels[spec_find_tunnel(s.tunnels, id)].enabled)
    } else {
        None
    }
}

/// A tunnel created through the add form is disabled and carries an
/// identity distinct from every tunnel already in the registry.
pub proof fn law_new_tunnel_fresh(
    pre: AppV,
    lp: u16,
    host: Seq<char>,
    rp: u16,
    now: i64,
)
    requires
        pre.wf(),
        pre.add_modal is Some,
        pre.next_tunnel_id < u64::MAX,
    ensures
        ({
            let post = spec_reduce(pre, ActionV::ModalValidated(lp, host, rp), now).0;
            &&& post.tunnels.len() == pre.tunnels.len() + 1
            &&& post.tunnels.last().enabled == false
            &&& (forall|i: int|
                0 <= i < pre.tunnels.len() ==> (#[trigger] pre.tunnels[i]).id
                    != post.tunnels.last().id)
        }),
{
    let post = spec_reduce(pre, ActionV::ModalValidated(lp, host, rp), now).0;
    assert(post.tunnels.last().id == pre.next_tunnel_id);
}

/// An update at one position leaves the identity layout alone: lookups of
/// other identities are unaffected.
proof fn lemma_find_tunnel_update(ts: Seq<TunnelV>, k: int, t: TunnelV, id: u64)
    requires
        0 <= k < ts.len(),
        t.id == ts[k].id,
    ensures
        spec_find_tunnel(ts.update(k, t), id) == spec_find_tunnel(ts, id),
    decreases ts.len(),
{
    let u = ts.update(k, t);
    if k == 0 {
        if ts[0].id != id {
            assert(u.skip(1) =~= ts.skip(1));
        }
    } else {
        assert(u[0] == ts[0]);
        if ts[0].id != id {
            assert(u.skip(1) =~= ts.skip(1).update(k - 1, t));
            lemma_find_tunnel_update(ts.skip(1), k - 1, t, id);
        }
    }
}

/// Applying a toggle completion resolves by identity: the named tunnel's
/// flag becomes the reported value, every other tunnel is untouched, and
/// a completion for an identity that is gone changes nothing.
pub proof fn law_toggled_by_identity(pre: AppV, id: u64, en: bool, now: i64)
    requires
        pre.wf(),
    ensures
        ({
            let r = spec_reduce(pre, ActionV::TunnelToggled(id, en), now);
            &&& tunnel_flag(r.0, id) == (if spec_has_tunnel(pre.tunnels, id) {
                Some(en)
            } else {
                None
            })
            &&& (forall|other: u64|
                other != id ==> #[trigger] tunnel_flag(r.0, other) == tunnel_flag(pre, other))
            &&& (!spec_has_tunnel(pre.tunnels, id) ==> r.0 == pre)
            &&& r.1 == Seq::<EffectV>::empty()
        }),
{
    let r = spec_reduce(pre, ActionV::TunnelToggled(id, en), now);
    let k = spec_find_tunnel(pre.tunnels, id);
    lemma_find_tunnel_props(pre.tunnels, id);
    if k < pre.tunnels.len() {
        let t2 = TunnelV { enabled: en, ..pre.tunnels[k] };
        lemma_find_tunnel_update(pre.tunnels, k, t2, id);
        assert forall|other: u64| other != id implies #[trigger] tunnel_flag(r.0, other)
            == tunnel_flag(pre, other) by {
            lemma_find_tunnel_update(pre.tunnels, k, t2, other);
            let m = spec_find_tunnel(pre.tunnels, other);
            lemma_find_tunnel_props(pre.tunnels, other);
            if m < pre.tunnels.len() && m != k {
                assert(r.0.tunnels[m] == pre.tunnels[m]);
            }
            if m == k {
                assert(pre.tunnels[k].id == id);
            }
        }
    }
}

/// Where the first tunnel with this identity sits, and that nothing
/// before it carries it.
pub proof fn lemma_find_tunnel_props(ts: Seq<TunnelV>, id: u64)
    ensures
        0 <= spec_find_tunnel(ts, id) <= ts.len(),
        spec_find_tunnel(ts, id) < ts.len() ==> ts[spec_find_tunnel(ts, id)].id == id,
        forall|j: int| 0 <= j < spec_find_tunnel(ts, id) ==> (#[trigger] ts[j]).id != id,
    decreases ts.len(),
{
    if ts.len() > 0 && ts[0].id != id {
        lemma_find_tunnel_props(ts.skip(1), id);
        assert forall|j: int| 0 <= j < spec_find_tunnel(ts, id) implies (#[trigger] ts[j]).id
            != id by {
            if j > 0 {
                assert(ts.skip(1)[j - 1] == ts[j]);
            }
        }
    }
}

/// Toggling a tunnel twice, enable then disable, puts its flag back to
/// disabled, no matter how many completions for other tunnels arrive in
/// between: resolution is by identity, not by position.
pub proof fn law_toggle_twice(
    s0: AppV,
    id: u64,
    betweens: Seq<ActionV>,
    now1: i64,
    nows: Seq<i64>,
    now2: i64,
)
    requires
        s0.wf(),
        tunnel_flag(s0, id) == Some(false),
        nows.len() == betweens.len(),
        forall|i: int|
            0 <= i < betweens.len() ==> match #[trigger] betweens[i] {
                ActionV::TunnelToggled(id2, _) => id2 != id,
                ActionV::TunnelDeleted(id2) => id2 != id,
                _ => false,
            },
    ensures
        ({
            let s1 = spec_reduce(s0, ActionV::TunnelToggled(id, true), now1).0;
            let s2 = run_actions(s1, betweens, nows);
            let s3 = spec_reduce(s2, ActionV::TunnelToggled(id, false), now2).0;
            tunnel_flag(s3, id) == Some(false)
        }),
{
    let s1 = spec_reduce(s0, ActionV::TunnelToggled(id, true), now1).0;
    law_toggled_by_identity(s0, id, true, now1);
    lemma_wf_completion(s0, ActionV::TunnelToggled(id, true), now1);
    let s2 = run_actions(s1, betweens, nows);
    lemma_run_actions_frame(s1, betweens, nows, id);
    let s3 = spec_reduce(s2, ActionV::TunnelToggled(id, false), now2).0;
    law_toggled_by_identity(s2, id, false, now2);
}

/// Fold a sequence of actions over the state.
pub open spec fn run_actions(s: AppV, acts: Seq<ActionV>, nows: Seq<i64>) -> AppV
    decreases acts.len(),
{
    if acts.len() == 0 || nows.len() == 0 {
        s
    } else {
        run_actions(spec_reduce(s, acts[0], nows[0]).0, acts.skip(1), nows.skip(1))
    }
}

/// Completions addressed to other identities never change this tunnel's
/// flag, and keep the state well-formed.
proof fn lemma_run_actions_frame(s: AppV, acts: Seq<ActionV>, nows: Seq<i64>, id: u64)
    requires
        s.wf(),
        nows.len() == acts.len(),
        forall|i: int|
            0 <= i < acts.len() ==> match #[trigger] acts[i] {
                ActionV::TunnelToggled(id2, _) => id2 != id,
                ActionV::TunnelDeleted(id2) => id2 != id,
                _ => false,
            },
    ensures
        run_actions(s, acts, nows).wf(),
        tunnel_flag(run_actions(s, acts, nows), id) == tunnel_flag(s, id),
    decreases acts.len(),
{
    if acts.len() > 0 {
        let s1 = spec_reduce(s, acts[0], nows[0]).0;
        lemma_wf_completion(s, acts[0], nows[0]);
        match acts[0] {
            ActionV::TunnelToggled(id2, en) => {
                law_toggled_by_identity(s, id2, en, nows[0]);
            },
            ActionV::TunnelDeleted(id2) => {
                law_deleted_by_identity(s, id2, nows[0]);
            },
            _ => {},
        }
        assert forall|i: int| 0 <= i < acts.skip(1).len() implies match #[trigger] acts.skip(
            1,
        )[i] {
            ActionV::TunnelToggled(id2, _) => id2 != id,
            ActionV::TunnelDeleted(id2) => id2 != id,
            _ => false,
        } by {
            assert(acts.skip(1)[i] == acts[i + 1]);
        }
        lemma_run_actions_frame(s1, acts.skip(1), nows.skip(1), id);
    }
}

/// Removal of one identity leaves the lookup of any other alone.
proof fn lemma_remove_tunnel_other(ts: Seq<TunnelV>, removed: u64, id: u64)
    requires
        removed != id,
    ensures
        ({
            let r = spec_remove_tunnel(ts, removed);
            &&& spec_has_tunnel(r, id) == spec_has_tunnel(ts, id)
            &&& (spec_has_tunnel(ts, id) ==> r[spec_find_tunnel(r, id)]
                == ts[spec_find_tunnel(ts, id)])
        }),
    decreases ts.len(),
{
    if ts.len() > 0 {
        let tail = ts.skip(1);
        lemma_remove_tunnel_other(tail, removed, id);
        lemma_find_tunnel_props(ts, id);
        lemma_find_tunnel_props(tail, id);
        let r = spec_remove_tunnel(ts, removed);
        let rest = spec_remove_tunnel(tail, removed);
        lemma_find_tunnel_props(rest, id);
        if ts[0].id == removed {
            assert(r == rest);
        } else {
            assert(r == seq![ts[0]] + rest);
            lemma_find_tunnel_props(r, id);
            if ts[0].id == id {
                assert(r[0] == ts[0]);
            } else {
                assert(r.skip(1) =~= rest);
            }
        }
    }
}

/// A removal completion resolves by identity: the named tunnel leaves the
/// registry, every other tunnel keeps its flag, and a completion for an
/// identity that is gone leaves the registry as it is.
pub proof fn law_deleted_by_identity(pre: AppV, id: u64, now: i64)
    requires
        pre.wf(),
    ensures
        ({
            let r = spec_reduce(pre, ActionV::TunnelDeleted(id), now);
            &&& tunnel_flag(r.0, id) is None
            &&& (forall|other: u64|
                other != id ==> #[trigger] tunnel_flag(r.0, other) == tunnel_flag(pre, other))
            &&& (!spec_has_tunnel(pre.tunnels, id) ==> r.0.tunnels == pre.tunnels)
            &&& r.1 == Seq::<EffectV>::empty()
        }),
{
    let r = spec_reduce(pre, ActionV::TunnelDeleted(id), now);
    lemma_remove_tunnel_absent_is_gone(pre.tunnels, id);
    assert forall|other: u64| other != id implies #[trigger] tunnel_flag(r.0, other)
        == tunnel_flag(pre, other) by {
        lemma_remove_tunnel_other(pre.tunnels, id, other);
        lemma_find_tunnel_props(pre.tunnels, other);
        lemma_find_tunnel_props(r.0.tunnels, other);
    }
    if !spec_has_tunnel(pre.tunnels, id) {
        lemma_remove_tunnel_absent(pre.tunnels, id);
        assert(r.0.tunnels =~= pre.tunnels);
    }
}

/// Removing an identity that is not there changes nothing.
proof fn lemma_remove_tunnel_absent(ts: Seq<TunnelV>, id: u64)
    requires
        !spec_has_tunnel(ts, id),
    ensures
        spec_remove_tunnel(ts, id) =~= ts,
    decreases ts.len(),
{
    lemma_find_tunnel_props(ts, id);
    if ts.len() > 0 {
        assert(ts[0].id != id) by {
            assert(spec_find_tunnel(ts, id) > 0);
        }
        assert(spec_find_tunnel(ts.skip(1), id) == spec_find_tunnel(ts, id) - 1);
        lemma_remove_tunnel_absent(ts.skip(1), id);
        assert(spec_remove_tunnel(ts, id) =~= seq![ts[0]] + ts.skip(1));
        assert(seq![ts[0]] + ts.skip(1) =~= ts);
    }
}

/// After the removal, the identity is gone.
proof fn lemma_remove_tunnel_absent_is_gone(ts: Seq<TunnelV>, id: u64)
    ensures
        !spec_has_tunnel(spec_remove_tunnel(ts, id), id),
    decreases ts.len(),
{
    if ts.len() > 0 {
        let tail = ts.skip(1);
        lemma_remove_tunnel_absent_is_gone(tail, id);
        let rest = spec_remove_tunnel(tail, id);
        if ts[0].id != id {
            let r = seq![ts[0]] + rest;
            lemma_find_tunnel_props(r, id);
            assert(r.skip(1) =~= rest);
            lemma_find_tunnel_props(rest, id);
            if spec_has_tunnel(r, id) {
                let k = spec_find_tunnel(r, id);
                if k == 0 {
                    assert(r[0] == ts[0]);
                } else {
                    assert(rest[k - 1] == r[k]);
                    assert(spec_has_tunnel(rest, id)) by {
                        lemma_find_tunnel_at(rest, id, k - 1);
                    }
                }
            }
        }
    }
}

/// Some position carries the identity, so the lookup lands inside.
proof fn lemma_find_tunnel_at(ts: Seq<TunnelV>, id: u64, at: int)
    requires
        0 <= at < ts.len(),
        ts[at].id == id,
    ensures
        spec_has_tunnel(ts, id),
    decreases ts.len(),
{
    if ts[0].id != id {
        assert(ts.skip(1)[at - 1] == ts[at]);
        lemma_find_tunnel_at(ts.skip(1), id, at - 1);
    }
}

/// Tunnel completions keep the state well-formed.
pub proof fn lemma_wf_completion(pre: AppV, a: ActionV, now: i64)
    requires
        pre.wf(),
        a matches ActionV::TunnelToggled(_, _) || a matches ActionV::TunnelDeleted(_),
    ensures
        spec_reduce(pre, a, now).0.wf(),
{
    let post = spec_reduce(pre, a, now).0;
    match a {
        ActionV::TunnelToggled(id, en) => {
            let k = spec_find_tunnel(pre.tunnels, id);
            lemma_find_tunnel_props(pre.tunnels, id);
            if k < pre.tunnels.len() {
                let t2 = TunnelV { enabled: en, ..pre.tunnels[k] };
                let u = pre.tunnels.update(k, t2);
                assert forall|i: int| 0 <= i < u.len() implies #[trigger] u[i].id
                    == pre.tunnels[i].id by {
                    if i != k {
                        assert(u[i] == pre.tunnels[i]);
                    }
                }
                assert forall|i: int, j: int| 0 <= i < j < u.len() implies u[i].id != u[j].id by {
                    assert(pre.tunnels[i].id != pre.tunnels[j].id);
                }
                assert forall|i: int| 0 <= i < u.len() implies #[trigger] u[i].id
                    < post.next_tunnel_id by {
                    assert(pre.tunnels[i].id < pre.next_tunnel_id);
                }
            }
        },
        ActionV::TunnelDeleted(id) => {
            crate::app::lemma_remove_tunnel_ok(pre.tunnels, id, pre.next_tunnel_id);
        },
        _ => {},
    }
}

/// Deleting an enabled tunnel never removes it from the registry at once:
/// the registry is unchanged and, when a session is current, one
/// rule-removal task is asked for, whose completion performs the removal.
/// Deleting a disabled tunnel removes it immediately.
pub proof fn law_delete_deferred(pre: AppV, idx: usize, now: i64)
    requires
        pre.wf(),
        (idx as int) < pre.tunnels.len(),
    ensures
        ({
            let r = spec_reduce(pre, ActionV::DeleteTunnel(idx), now);
            let t = pre.tunnels[idx as int];
            if t.enabled {
                &&& r.0 == pre
                &&& (pre.connection matches Some(c) ==> r.1 == seq![
                    EffectV::SpawnTunnelRemove { conn: c, tunnel: t },
                ])
                &&& (pre.connection is None ==> r.1 == Seq::<EffectV>::empty())
            } else {
                &&& !spec_has_tunnel(r.0.tunnels, t.id)
                &&& r.1 == Seq::<EffectV>::empty()
            }
        }),
{
    let t = pre.tunnels[idx as int];
    if !t.enabled {
        lemma_remove_tunnel_absent_is_gone(pre.tunnels, t.id);
    }
}

/// Saving the tunnel set for a recorded host and reading it back returns
/// exactly the saved specs: same ports, same hosts, same count and order.
pub proof fn law_history_round_trip(h: Seq<HistoryEntryV>, name: Seq<char>, ts: Seq<TunnelV>)
    requires
        forall|i: int, j: int| 0 <= i < j < h.len() ==> h[i].name != h[j].name,
        spec_has_host(h, name),
    ensures
        spec_saved_tunnels(spec_store_tunnels(h, name, ts), name) == ts.map_values(
            |t: TunnelV| spec_saved_of(t),
        ),
{
    let k = spec_find_host(h, name);
    lemma_find_host_props(h, name);
    let e2 = HistoryEntryV {
        name: h[k].name,
        info: crate::history::HostHistoryV {
            last_used: h[k].info.last_used,
            use_count: h[k].info.use_count,
            tunnels: ts.map_values(|t: TunnelV| spec_saved_of(t)),
        },
    };
    lemma_find_host_update(h, name, k, e2);
}

/// Where the first record for `name` sits, and that nothing before it
/// carries that name.
pub proof fn lemma_find_host_props(h: Seq<HistoryEntryV>, name: Seq<char>)
    ensures
        0 <= spec_find_host(h, name) <= h.len(),
        spec_find_host(h, name) < h.len() ==> h[spec_find_host(h, name)].name == name,
        forall|j: int| 0 <= j < spec_find_host(h, name) ==> (#[trigger] h[j]).name != name,
    decreases h.len(),
{
    if h.len() > 0 && h[0].name != name {
        lemma_find_host_props(h.skip(1), name);
        assert forall|j: int| 0 <= j < spec_find_host(h, name) implies (#[trigger] h[j]).name
            != name by {
            if j > 0 {
                assert(h.skip(1)[j - 1] == h[j]);
            }
        }
    }
}

/// Updating the record at the lookup position with one of the same name
/// leaves the lookup where it was.
proof fn lemma_find_host_update(h: Seq<HistoryEntryV>, name: Seq<char>, k: int, e: HistoryEntryV)
    requires
        0 <= k < h.len(),
        k == spec_find_host(h, name),
        e.name == h[k].name,
    ensures
        spec_find_host(h.update(k, e), name) == k,
    decreases h.len(),
{
    let u = h.update(k, e);
    lemma_find_host_props(h, name);
    if k == 0 {
        assert(u[0].name == h[0].name);
    } else {
        assert(u[0] == h[0]);
        assert(u.skip(1) =~= h.skip(1).update(k - 1, e));
        assert(spec_find_host(h.skip(1), name) == k - 1);
        lemma_find_host_update(h.skip(1), name, k - 1, e);
    }
}

/// A connection failure report makes the status the carried error, empties
/// the registry and discards the session, whatever state it arrives in:
/// a health-check failure while connected lands in exactly the state a
/// failed initial connect does.
pub proof fn law_failure_uniform(pre: AppV, msg: Seq<char>, now: i64)
    ensures
        ({
            let post = spec_reduce(pre, ActionV::ConnectionFailed(msg), now).0;
            &&& post.connection_status == StatusV::Error(msg)
            &&& post.tunnels == Seq::<TunnelV>::empty()
            &&& post.connection is None
        }),
        // two arrivals with the same message agree on everything the
        // failure touches, regardless of where they started
        (forall|p2: AppV|
            {
                let a = spec_reduce(pre, ActionV::ConnectionFailed(msg), now).0;
                let b = #[trigger] spec_reduce(p2, ActionV::ConnectionFailed(msg), now).0;
                a.connection_status == b.connection_status && a.tunnels == b.tunnels
                    && a.connection == b.connection && a.notification == b.notification
            }),
{
}

} // verus!
