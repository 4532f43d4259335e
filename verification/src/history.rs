//! Per-host connection history: last use, use count and the saved tunnel
//! set, keyed by host name.

use vstd::prelude::*;

use crate::outside::home_dir_string;
use vstd::multiset::Multiset;
use crate::tunnel::{spec_saved_of, tunnels_view, SavedTunnel, SavedTunnelV, Tunnel, TunnelV};

verus! {

/// What is remembered about one host: when it was last used, how often,
/// and the last known tunnel set.
#[derive(Debug, Clone)]
pub struct HostHistory {
    pub last_used: i64,
    pub use_count: u32,
    pub tunnels: Vec<SavedTunnel>,
}

/// Mathematical image of a `HostHistory`.
#[verifier::ext_equal]
pub struct HostHistoryV {
    pub last_used: i64,
    pub use_count: u32,
    pub tunnels: Seq<SavedTunnelV>,
}

impl View for HostHistory {
    type V = HostHistoryV;

    open spec fn view(&self) -> HostHistoryV {
        HostHistoryV {
            last_used: self.last_used,
            use_count: self.use_count,
            tunnels: self.tunnels@.map_values(|t: SavedTunnel| t@),
        }
    }
}

/// One record of the history, keyed by host name.
#[derive(Debug, Clone)]
pub struct HistoryEntry {
    pub name: String,
    pub info: HostHistory,
}

/// Mathematical image of a `HistoryEntry`.
#[verifier::ext_equal]
pub struct HistoryEntryV {
    pub name: Seq<char>,
    pub info: HostHistoryV,
}

impl View for HistoryEntry {
    type V = HistoryEntryV;

    open spec fn view(&self) -> HistoryEntryV {
        HistoryEntryV { name: self.name@, info: self.info@ }
    }
}

/// Connection history for all hosts, ordered by first use. Names are
/// unique; lookups go by name, never by position.
#[derive(Debug, Clone)]
pub struct History {
    pub hosts: Vec<HistoryEntry>,
}

impl View for History {
    type V = Seq<HistoryEntryV>;

    open spec fn view(&self) -> Seq<HistoryEntryV> {
        self.hosts@.map_values(|e: HistoryEntry| e@)
    }
}

/// Index of the record for `name`, or the length when there is none.
pub open spec fn spec_find_host(h: Seq<HistoryEntryV>, name: Seq<char>) -> int
    decreases h.len(),
{
    if h.len() == 0 {
        0
    } else if h[0].name == name {
        0
    } else {
        1 + spec_find_host(h.skip(1), name)
    }
}

pub open spec fn spec_has_host(h: Seq<HistoryEntryV>, name: Seq<char>) -> bool {
    spec_find_host(h, name) < h.len()
}

/// The saved tunnel specs for `name`, empty when there is no record.
pub open spec fn spec_saved_tunnels(h: Seq<HistoryEntryV>, name: Seq<char>) -> Seq<SavedTunnelV> {
    if spec_has_host(h, name) {
        h[spec_find_host(h, name)].info.tunnels
    } else {
        Seq::empty()
    }
}

/// A use counter one higher, saturating.
pub open spec fn spec_bump_count(c: u32) -> u32 {
    if c < u32::MAX {
        (c + 1) as u32
    } else {
        c
    }
}

/// The history after recording a connection to `name` at `now`.
pub open spec fn spec_record_connection(h: Seq<HistoryEntryV>, name: Seq<char>, now: i64) -> Seq<
    HistoryEntryV,
> {
    let k = spec_find_host(h, name);
    if spec_has_host(h, name) {
        h.update(
            k,
            HistoryEntryV {
                name: h[k].name,
                info: HostHistoryV {
                    last_used: now,
                    use_count: spec_bump_count(h[k].info.use_count),
                    tunnels: h[k].info.tunnels,
                },
            },
        )
    } else {
        h.push(
            HistoryEntryV {
                name: name,
                info: HostHistoryV { last_used: now, use_count: 1, tunnels: Seq::empty() },
            },
        )
    }
}

/// The history after replacing the saved tunnel set of `name` with the
/// specs of `tunnels`; unchanged without a record for `name`.
pub open spec fn spec_store_tunnels(
    h: Seq<HistoryEntryV>,
    name: Seq<char>,
    tunnels: Seq<TunnelV>,
) -> Seq<HistoryEntryV> {
    let k = spec_find_host(h, name);
    if spec_has_host(h, name) {
        h.update(
            k,
            HistoryEntryV {
                name: h[k].name,
                info: HostHistoryV {
                    last_used: h[k].info.last_used,
                    use_count: h[k].info.use_count,
                    tunnels: tunnels.map_values(|t: TunnelV| spec_saved_of(t)),
                },
            },
        )
    } else {
        h
    }
}

impl History {
    /// History well-formedness: one record per host name.
    pub open spec fn wf(&self) -> bool {
        forall|i: int, j: int|
            0 <= i < j < self@.len() ==> self@[i].name != self@[j].name
    }

    /// An empty history.
    pub fn new() -> (r: History)
        ensures
            r@ == Seq::<HistoryEntryV>::empty(),
            r.wf(),
    {
        let r = History { hosts: Vec::new() };
        proof {
            assert(r@ =~= Seq::<HistoryEntryV>::empty());
        }
        r
    }

    /// Index of the record for `name`, or the number of records.
    fn find_idx(&self, name: &str) -> (r: usize)
        ensures
            r as int == spec_find_host(self@, name@),
            r <= self@.len(),
            r < self@.len() ==> self@[r as int].name == name@,
            forall|j: int| 0 <= j < r ==> self@[j].name != name@,
    {
        let n = self.hosts.len();
        let mut i: usize = 0;
        proof {
            assert(self@.skip(0) =~= self@);
        }
        while i < n
            invariant
                n == self@.len(),
                0 <= i <= n,
                spec_find_host(self@, name@) == i + spec_find_host(self@.skip(i as int), name@),
                forall|j: int| 0 <= j < i ==> self@[j].name != name@,
            decreases n - i,
        {
            proof {
                assert(self@.skip(i as int)[0] == self@[i as int]);
                assert(self@.skip(i as int).skip(1) =~= self@.skip(i + 1));
            }
            if crate::chars::str_eq(self.hosts[i].name.as_str(), name) {
                return i;
            }
            i += 1;
        }
        proof {
            assert(self@.skip(n as int) =~= Seq::<HistoryEntryV>::empty());
        }
        n
    }

    /// The record for `name`, if any.
    pub fn get(&self, host_name: &str) -> (r: Option<&HostHistory>)
        ensures
            (match r {
                Some(info) => spec_has_host(self@, host_name@) && info@ == self@[spec_find_host(
                    self@,
                    host_name@,
                )].info,
                None => !spec_has_host(self@, host_name@),
            }),
    {
        let i = self.find_idx(host_name);
        if i < self.hosts.len() {
            Some(&self.hosts[i].info)
        } else {
            None
        }
    }

    /// Record a connection to `name` at time `now`: its counter grows by
    /// one (saturating) and its last-used time becomes `now`; a host seen
    /// for the first time gets a fresh record with counter one.
    pub fn record_connection(&mut self, host_name: &str, now: i64)
        requires
            old(self).wf(),
        ensures
            final(self).wf(),
            final(self)@ == spec_record_connection(old(self)@, host_name@, now),
    {
        let i = self.find_idx(host_name);
        if i < self.hosts.len() {
            let e = &mut self.hosts[i];
            e.info.last_used = now;
            e.info.use_count = if e.info.use_count < u32::MAX {
                e.info.use_count + 1
            } else {
                u32::MAX
            };
            proof {
                let h = old(self)@;
                let k = i as int;
                assert(self@ =~~= h.update(
                    k,
                    HistoryEntryV {
                        name: h[k].name,
                        info: HostHistoryV {
                            last_used: now,
                            use_count: if h[k].info.use_count < u32::MAX {
                                (h[k].info.use_count + 1) as u32
                            } else {
                                u32::MAX
                            },
                            tunnels: h[k].info.tunnels,
                        },
                    },
                ));
                assert forall|a: int, b: int| 0 <= a < b < self@.len() implies self@[a].name
                    != self@[b].name by {
                    assert(self@[a].name == h[a].name);
                    assert(self@[b].name == h[b].name);
                }
            }
        } else {
            self.hosts.push(
                HistoryEntry {
                    name: host_name.to_owned(),
                    info: HostHistory { last_used: now, use_count: 1, tunnels: Vec::new() },
                },
            );
            proof {
                let h = old(self)@;
                assert(self@ =~~= h.push(
                    HistoryEntryV {
                        name: host_name@,
                        info: HostHistoryV { last_used: now, use_count: 1, tunnels: Seq::empty() },
                    },
                ));
                assert forall|a: int, b: int| 0 <= a < b < self@.len() implies self@[a].name
                    != self@[b].name by {
                    if b < h.len() {
                        assert(self@[a] == h[a]);
                        assert(self@[b] == h[b]);
                    } else {
                        assert(self@[b].name == host_name@);
                        assert(self@[a].name != host_name@);
                    }
                }
            }
        }
    }

    /// Replace the saved tunnel set of `name` with the specs of `tunnels`;
    /// without a record for `name` nothing changes.
    pub fn save_tunnels(&mut self, host_name: &str, tunnels: &Vec<Tunnel>)
        requires
            old(self).wf(),
        ensures
            final(self).wf(),
            final(self)@ == spec_store_tunnels(old(self)@, host_name@, tunnels_view(tunnels@)),
    {
        let i = self.find_idx(host_name);
        if i < self.hosts.len() {
            let mut specs: Vec<SavedTunnel> = Vec::new();
            let n = tunnels.len();
            let mut j: usize = 0;
            while j < n
                invariant
                    n == tunnels@.len(),
                    0 <= j <= n,
                    specs@.len() == j,
                    forall|k: int| 0 <= k < j ==> #[trigger] specs@[k]@ == spec_saved_of(
                        tunnels@[k]@,
                    ),
                decreases n - j,
            {
                specs.push(SavedTunnel::of_tunnel(&tunnels[j]));
                j += 1;
            }
            self.hosts[i].info.tunnels = specs;
            proof {
                assert(specs@.map_values(|t: SavedTunnel| t@) =~= tunnels_view(
                    tunnels@,
                ).map_values(|t: TunnelV| spec_saved_of(t)));
                assert(self@ =~~= spec_store_tunnels(
                    old(self)@,
                    host_name@,
                    tunnels_view(tunnels@),
                ));
            }
        } else {
            proof {
                assert(self@ =~~= spec_store_tunnels(
                    old(self)@,
                    host_name@,
                    tunnels_view(tunnels@),
                ));
            }
        }
    }

    /// A copy of the history whose records read the same.
    pub fn duplicate(&self) -> (r: History)
        ensures
            r@ == self@,
    {
        let n = self.hosts.len();
        let mut out: Vec<HistoryEntry> = Vec::new();
        let mut i: usize = 0;
        while i < n
            invariant
                n == self.hosts@.len(),
                0 <= i <= n,
                out@.len() == i,
                forall|k: int| 0 <= k < i ==> #[trigger] out@[k]@ == self@[k],
            decreases n - i,
        {
            let e = &self.hosts[i];
            let mut ts: Vec<SavedTunnel> = Vec::new();
            let m = e.info.tunnels.len();
            let mut j: usize = 0;
            while j < m
                invariant
                    m == e.info.tunnels@.len(),
                    0 <= j <= m,
                    ts@.len() == j,
                    forall|k: int| 0 <= k < j ==> #[trigger] ts@[k]@ == e.info.tunnels@[k]@,
                decreases m - j,
            {
                ts.push(e.info.tunnels[j].duplicate());
                j += 1;
            }
            out.push(
                HistoryEntry {
                    name: e.name.as_str().to_owned(),
                    info: HostHistory {
                        last_used: e.info.last_used,
                        use_count: e.info.use_count,
                        tunnels: ts,
                    },
                },
            );
            proof {
                assert(out@[i as int]@ =~~= self@[i as int]);
            }
            i += 1;
        }
        let r = History { hosts: out };
        proof {
            assert(r@ =~= self@);
        }
        r
    }

    /// The saved tunnel specs for `name`; empty without a record.
    pub fn get_saved_tunnels(&self, host_name: &str) -> (r: Vec<SavedTunnel>)
        ensures
            r@.map_values(|t: SavedTunnel| t@) == spec_saved_tunnels(self@, host_name@),
    {
        let i = self.find_idx(host_name);
        let mut out: Vec<SavedTunnel> = Vec::new();
        if i < self.hosts.len() {
            let src = &self.hosts[i].info.tunnels;
            let n = src.len();
            let mut j: usize = 0;
            while j < n
                invariant
                    n == src@.len(),
                    i < self@.len(),
                    src@.map_values(|t: SavedTunnel| t@) == self@[i as int].info.tunnels,
                    0 <= j <= n,
                    out@.len() == j,
                    forall|k: int| 0 <= k < j ==> #[trigger] out@[k]@ == src@[k]@,
                decreases n - j,
            {
                out.push(src[j].duplicate());
                j += 1;
            }
            proof {
                assert(out@.map_values(|t: SavedTunnel| t@) =~= spec_saved_tunnels(
                    self@,
                    host_name@,
                ));
            }
        } else {
            proof {
                assert(out@.map_values(|t: SavedTunnel| t@) =~= spec_saved_tunnels(
                    self@,
                    host_name@,
                ));
            }
        }
        out
    }
}

// ---------- most recent hosts ----------

/// The (last-used, name) pairs of a history.
pub open spec fn pairs_of(h: Seq<HistoryEntryV>) -> Seq<(i64, Seq<char>)> {
    h.map_values(|e: HistoryEntryV| (e.info.last_used, e.name))
}

pub open spec fn pview(s: Seq<(i64, String)>) -> Seq<(i64, Seq<char>)> {
    s.map_values(|p: (i64, String)| (p.0, p.1@))
}

/// Sorted by time, most recent first.
pub open spec fn pairs_sorted_desc(p: Seq<(i64, Seq<char>)>) -> bool {
    forall|i: int, j: int| 0 <= i < j < p.len() ==> (#[trigger] p[i]).0 >= (#[trigger] p[j]).0
}

/// Sort (time, name) pairs by time, most recent first; the result holds
/// the same pairs.
fn sort_pairs_desc(v: Vec<(i64, String)>) -> (r: Vec<(i64, String)>)
    ensures
        pview(r@).to_multiset() == pview(v@).to_multiset(),
        pairs_sorted_desc(pview(r@)),
{
    broadcast use vstd::seq_lib::group_to_multiset_ensures;

    let ghost orig = pview(v@);
    let mut v = v;
    let mut out: Vec<(i64, String)> = Vec::new();
    proof {
        assert(pview(out@) =~= Seq::<(i64, Seq<char>)>::empty());
        assert(pview(out@).to_multiset().add(pview(v@).to_multiset()) =~= orig.to_multiset());
    }
    while v.len() > 0
        invariant
            pview(out@).to_multiset().add(pview(v@).to_multiset()) == orig.to_multiset(),
            pairs_sorted_desc(pview(out@)),
            forall|a: int, b: int|
                0 <= a < out@.len() && 0 <= b < v@.len() ==> (#[trigger] pview(out@)[a]).0 >= (
                #[trigger] pview(v@)[b]).0,
        decreases v@.len(),
    {
        let n = v.len();
        let mut m: usize = 0;
        let mut j: usize = 1;
        while j < n
            invariant
                n == v@.len(),
                0 <= m < j <= n,
                forall|k: int| 0 <= k < j ==> v@[m as int].0 >= (#[trigger] v@[k]).0,
            decreases n - j,
        {
            if v[j].0 > v[m].0 {
                m = j;
            }
            j += 1;
        }
        let ghost pre_v = pview(v@);
        let ghost pre_out = pview(out@);
        let x = v.remove(m);
        let ghost xv = (x.0, x.1@);
        out.push(x);
        proof {
            broadcast use vstd::seq_lib::group_to_multiset_ensures;
            broadcast use vstd::multiset::group_multiset_axioms;

            assert(pre_v[m as int] == xv);
            assert(pview(v@) =~= pre_v.remove(m as int));
            assert(pview(out@) =~= pre_out.push(xv));
            assert(pre_v.contains(xv)) by {
                assert(pre_v[m as int] == xv);
            }
            assert(pre_out.push(xv).to_multiset() =~= pre_out.to_multiset().insert(xv));
            assert(pre_v.remove(m as int).to_multiset() =~= pre_v.to_multiset().remove(
                pre_v[m as int],
            ));
            assert(pview(out@).to_multiset() =~= pre_out.to_multiset().insert(xv));
            assert(pview(v@).to_multiset() =~= pre_v.to_multiset().remove(xv));
            assert(pview(out@).to_multiset().add(pview(v@).to_multiset())
                =~= pre_out.to_multiset().add(pre_v.to_multiset()));
            assert forall|a: int, b: int|
                0 <= a < out@.len() && 0 <= b < v@.len() implies (#[trigger] pview(out@)[a]).0
                >= (#[trigger] pview(v@)[b]).0 by {
                assert(pre_v.remove(m as int)[b] == (if b < m as int {
                    pre_v[b]
                } else {
                    pre_v[b + 1]
                }));
                if a < pre_out.len() {
                    assert(pview(out@)[a] == pre_out[a]);
                } else {
                    assert(pview(out@)[a] == xv);
                }
            }
        }
    }
    proof {
        broadcast use vstd::seq_lib::group_to_multiset_ensures;
        broadcast use vstd::multiset::group_multiset_axioms;

        assert(pview(v@) =~= Seq::<(i64, Seq<char>)>::empty());
        assert(pview(v@).to_multiset() =~= Multiset::<(i64, Seq<char>)>::empty());
        assert(pview(out@).to_multiset() =~= orig.to_multiset());
    }
    out
}

impl History {
    /// The host names ordered by last use, most recent first.
    pub fn recent_hosts(&self) -> (r: Vec<String>)
        ensures
            exists|ps: Seq<(i64, Seq<char>)>|
                {
                    &&& ps.to_multiset() == pairs_of(self@).to_multiset()
                    &&& pairs_sorted_desc(ps)
                    &&& r@.map_values(|s: String| s@) == ps.map_values(
                        |p: (i64, Seq<char>)| p.1,
                    )
                },
    {
        let n = self.hosts.len();
        let mut pairs: Vec<(i64, String)> = Vec::new();
        let mut i: usize = 0;
        while i < n
            invariant
                n == self@.len(),
                0 <= i <= n,
                pairs@.len() == i,
                forall|k: int|
                    0 <= k < i ==> #[trigger] pview(pairs@)[k] == (
                    self@[k].info.last_used,
                    self@[k].name,
                    ),
            decreases n - i,
        {
            let ghost pre = pview(pairs@);
            let e = &self.hosts[i];
            pairs.push((e.info.last_used, e.name.as_str().to_owned()));
            proof {
                assert(pview(pairs@) =~= pre.push((self@[i as int].info.last_used, self@[i as int].name)));
            }
            i += 1;
        }
        proof {
            assert(pview(pairs@) =~= pairs_of(self@));
        }
        let sorted = sort_pairs_desc(pairs);
        let ghost ps = pview(sorted@);
        let m = sorted.len();
        let mut out: Vec<String> = Vec::new();
        let mut j: usize = 0;
        while j < m
            invariant
                m == sorted@.len(),
                0 <= j <= m,
                out@.len() == j,
                ps == pview(sorted@),
                forall|k: int| 0 <= k < j ==> #[trigger] out@[k]@ == ps[k].1,
            decreases m - j,
        {
            out.push(sorted[j].1.as_str().to_owned());
            j += 1;
        }
        proof {
            assert(out@.map_values(|s: String| s@) =~= ps.map_values(|p: (i64, Seq<char>)| p.1));
        }
        out
    }

    /// Where history is kept: `.config/stm/history.json` under the home
    /// directory, or relative to the working directory without one.
    pub fn history_path() -> (r: String)
        ensures
            exists|home: Option<Seq<char>>| r@ == spec_path_from_home(
                home,
                ".config/stm/history.json"@,
            ),
    {
        let home = home_dir_string();
        match home {
            Some(h) => {
                let r = path_from_home(Some(h.as_str()), ".config/stm/history.json");
                proof {
                    assert(r@ == spec_path_from_home(Some(h@), ".config/stm/history.json"@));
                }
                r
            },
            None => {
                let r = path_from_home(None, ".config/stm/history.json");
                proof {
                    assert(r@ == spec_path_from_home(None, ".config/stm/history.json"@));
                }
                r
            },
        }
    }
}

/// `rel` under the home directory when one is known, `rel` alone otherwise.
pub open spec fn spec_path_from_home(home: Option<Seq<char>>, rel: Seq<char>) -> Seq<char> {
    match home {
        Some(h) => h + seq!['/'] + rel,
        None => rel,
    }
}

/// Join a path onto the home directory.
pub fn path_from_home(home: Option<&str>, rel: &str) -> (r: String)
    ensures
        r@ == spec_path_from_home(
            (match home {
                Some(h) => Some(h@),
                None => None,
            }),
            rel@,
        ),
{
    match home {
        Some(h) => {
            let mut s = String::new();
            s.append(h);
            s.append("/");
            s.append(rel);
            proof {
                reveal_strlit("/");
                assert(s@ =~= h@ + seq!['/'] + rel@);
            }
            s
        },
        None => rel.to_owned(),
    }
}

} // verus!
