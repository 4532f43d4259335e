//! The SSH client-config grammar: host blocks, keyword/value lines,
//! wildcards and include directives, parsed exactly as specified.

use vstd::prelude::*;

use crate::chars::{
    eq_ignore_case, ends_with, find_char, find_ws, is_ws_char, parse_u16, spec_ends_with,
    spec_find, spec_find_ws, spec_ieq, spec_lines, spec_parse_u16, spec_starts_with, spec_trim,
    split_lines, starts_with, str_eq, trim_str, ws_char,
};
use crate::error::StmError;

verus! {

/// One host entry from an SSH client configuration, as plain values.
#[derive(Debug, Clone)]
pub struct SshHost {
    pub name: String,
    pub hostname: Option<String>,
    pub user: Option<String>,
    pub port: Option<u16>,
    pub identity_file: Option<String>,
    pub proxy_jump: Option<String>,
}

/// Mathematical image of an `SshHost`.
#[verifier::ext_equal]
pub struct HostV {
    pub name: Seq<char>,
    pub hostname: Option<Seq<char>>,
    pub user: Option<Seq<char>>,
    pub port: Option<u16>,
    pub identity_file: Option<Seq<char>>,
    pub proxy_jump: Option<Seq<char>>,
}

pub open spec fn opt_str_view(o: Option<String>) -> Option<Seq<char>> {
    match o {
        Some(s) => Some(s@),
        None => None,
    }
}

impl View for SshHost {
    type V = HostV;

    open spec fn view(&self) -> HostV {
        HostV {
            name: self.name@,
            hostname: opt_str_view(self.hostname),
            user: opt_str_view(self.user),
            port: self.port,
            identity_file: opt_str_view(self.identity_file),
            proxy_jump: opt_str_view(self.proxy_jump),
        }
    }
}

pub open spec fn spec_effective_hostname(h: HostV) -> Seq<char> {
    match h.hostname {
        Some(s) => s,
        None => h.name,
    }
}

pub open spec fn spec_effective_port(h: HostV) -> u16 {
    match h.port {
        Some(p) => p,
        None => 22,
    }
}

/// The display identity: "user@hostname", or the hostname alone.
pub open spec fn spec_display_target(h: HostV) -> Seq<char> {
    match h.user {
        Some(u) => u + seq!['@'] + spec_effective_hostname(h),
        None => spec_effective_hostname(h),
    }
}

impl SshHost {
    /// The effective hostname: the explicit one, or the entry name.
    pub fn effective_hostname(&self) -> (r: &str)
        ensures
            r@ == spec_effective_hostname(self@),
    {
        match &self.hostname {
            Some(h) => h.as_str(),
            None => self.name.as_str(),
        }
    }

    /// The effective port: the explicit one, or 22.
    pub fn effective_port(&self) -> (r: u16)
        ensures
            r == spec_effective_port(self@),
    {
        match self.port {
            Some(p) => p,
            None => 22,
        }
    }

    /// The display identity, "user@hostname" or "hostname".
    pub fn display_target(&self) -> (r: String)
        ensures
            r@ == spec_display_target(self@),
    {
        match &self.user {
            Some(u) => {
                let mut s = String::new();
                s.append(u.as_str());
                s.append("@");
                s.append(self.effective_hostname());
                proof {
                    reveal_strlit("@");
                    assert(s@ =~= spec_display_target(self@));
                }
                s
            },
            None => {
                let mut s = String::new();
                s.append(self.effective_hostname());
                proof {
                    assert(s@ =~= spec_display_target(self@));
                }
                s
            },
        }
    }
}

impl Default for SshHost {
    /// An entry with an empty name and no options set.
    fn default() -> (r: Self)
        ensures
            r@.name == Seq::<char>::empty(),
            r@.hostname is None,
            r@.user is None,
            r@.port is None,
            r@.identity_file is None,
            r@.proxy_jump is None,
    {
        SshHost {
            name: String::new(),
            hostname: None,
            user: None,
            port: None,
            identity_file: None,
            proxy_jump: None,
        }
    }
}

/// Split a config line into keyword and value, trying the `=` separator
/// first and falling back to the first whitespace, as the SSH client does.
pub open spec fn spec_split_config_line(l: Seq<char>) -> Option<(Seq<char>, Seq<char>)> {
    let eq = spec_find(l, '=');
    let kw_eq = spec_trim(l.take(eq));
    let val_eq = spec_trim(l.skip(eq + 1));
    if eq < l.len() && kw_eq.len() > 0 && val_eq.len() > 0 {
        Some((kw_eq, val_eq))
    } else {
        let ws = spec_find_ws(l);
        if ws < l.len() {
            let kw = spec_trim(l.take(ws));
            let v = spec_trim(l.skip(ws + 1));
            if kw.len() > 0 && v.len() > 0 {
                Some((kw, v))
            } else {
                None
            }
        } else {
            None
        }
    }
}

/// Split a config line into (keyword, value); `=` first, then whitespace.
pub fn split_config_line<'a>(line: &'a str) -> (r: Option<(&'a str, &'a str)>)
    ensures
        (match r {
            Some((kw, v)) => spec_split_config_line(line@) == Some((kw@, v@)),
            None => spec_split_config_line(line@) is None,
        }),
{
    let len = line.unicode_len();
    let eq = find_char(line, '=');
    if eq < len {
        let kw = trim_str(line.substring_char(0, eq));
        let v = trim_str(line.substring_char(eq + 1, len));
        proof {
            assert(line@.subrange(0, eq as int) =~= line@.take(eq as int));
            assert(line@.subrange(eq + 1, len as int) =~= line@.skip(eq + 1));
        }
        if kw.unicode_len() > 0 && v.unicode_len() > 0 {
            return Some((kw, v));
        }
    }
    let ws = find_ws(line);
    if ws < len {
        let kw = trim_str(line.substring_char(0, ws));
        let v = trim_str(line.substring_char(ws + 1, len));
        proof {
            assert(line@.subrange(0, ws as int) =~= line@.take(ws as int));
            assert(line@.subrange(ws + 1, len as int) =~= line@.skip(ws + 1));
        }
        if kw.unicode_len() > 0 && v.unicode_len() > 0 {
            return Some((kw, v));
        }
        return None;
    }
    None
}

/// A host pattern made only of parts that begin with `*` or `!`, such as
/// `*` or `* !bastion`; such blocks carry defaults, not connectable hosts.
pub open spec fn spec_is_wildcard_only(s: Seq<char>) -> bool {
    forall|i: int|
        0 <= i < s.len() && !is_ws_char(#[trigger] s[i]) && (i == 0 || is_ws_char(s[i - 1])) ==> (
        s[i] == '*' || s[i] == '!')
}

/// Whether every whitespace-separated part of `name` starts with `*` or `!`.
pub fn is_wildcard_only(name: &str) -> (r: bool)
    ensures
        r == spec_is_wildcard_only(name@),
{
    let len = name.unicode_len();
    let mut i: usize = 0;
    while i < len
        invariant
            len == name@.len(),
            0 <= i <= len,
            forall|j: int|
                0 <= j < i && !is_ws_char(#[trigger] name@[j]) && (j == 0 || is_ws_char(
                    name@[j - 1],
                )) ==> (name@[j] == '*' || name@[j] == '!'),
        decreases len - i,
    {
        let c = name.get_char(i);
        if !ws_char(c) && (i == 0 || ws_char(name.get_char(i - 1))) {
            if !(c == '*' || c == '!') {
                return false;
            }
        }
        i += 1;
    }
    true
}

/// Simple glob matching: a lone `*`, a `*` prefix, a `*` suffix, or an
/// exact name.
pub open spec fn spec_matches_simple_glob(name: Seq<char>, pattern: Seq<char>) -> bool {
    if pattern == "*"@ {
        true
    } else if spec_starts_with(pattern, "*"@) {
        spec_ends_with(name, pattern.skip(1))
    } else if spec_ends_with(pattern, "*"@) {
        spec_starts_with(name, pattern.take(pattern.len() - 1))
    } else {
        name == pattern
    }
}

/// Match a file name against a pattern with at most one leading or trailing `*`.
pub fn matches_simple_glob(name: &str, pattern: &str) -> (r: bool)
    ensures
        r == spec_matches_simple_glob(name@, pattern@),
{
    if str_eq(pattern, "*") {
        return true;
    }
    let plen = pattern.unicode_len();
    if starts_with(pattern, "*") {
        proof {
            reveal_strlit("*");
        }
        let suffix = pattern.substring_char(1, plen);
        proof {
            assert(pattern@.subrange(1, plen as int) =~= pattern@.skip(1));
        }
        return ends_with(name, suffix);
    }
    if ends_with(pattern, "*") {
        let prefix = pattern.substring_char(0, plen - 1);
        proof {
            reveal_strlit("*");
            assert(pattern@.subrange(0, plen - 1) =~= pattern@.take(plen - 1));
        }
        return starts_with(name, prefix);
    }
    str_eq(name, pattern)
}

/// `path` with a leading `~/` replaced by the home directory, when one is known.
pub open spec fn spec_expand_tilde(path: Seq<char>, home: Option<Seq<char>>) -> Seq<char> {
    if spec_starts_with(path, "~/"@) && home is Some {
        home->0 + path.skip(1)
    } else {
        path
    }
}

/// Expand a leading `~/` to the given home directory.
pub fn expand_tilde(path: &str, home: Option<&str>) -> (r: String)
    ensures
        r@ == spec_expand_tilde(path@, (match home {
            Some(h) => Some(h@),
            None => None,
        })),
{
    let len = path.unicode_len();
    if starts_with(path, "~/") {
        proof {
            reveal_strlit("~/");
        }
        if let Some(h) = home {
            let mut s = String::new();
            s.append(h);
            s.append(path.substring_char(1, len));
            proof {
                reveal_strlit("~/");
                assert(path@.subrange(1, len as int) =~= path@.skip(1));
                assert(s@ =~= spec_expand_tilde(path@, Some(h@)));
            }
            return s;
        }
    }
    let r = path.to_owned();
    r
}

/// Where an `Include` pattern points: absolute and `~` patterns expand with
/// the home directory; relative ones resolve against the config directory.
pub open spec fn spec_resolve_include(
    pattern: Seq<char>,
    config_dir: Option<Seq<char>>,
    home: Option<Seq<char>>,
) -> Seq<char> {
    if pattern.len() > 0 && (pattern[0] == '~' || pattern[0] == '/') {
        spec_expand_tilde(pattern, home)
    } else {
        match config_dir {
            Some(d) => d + seq!['/'] + pattern,
            None => pattern,
        }
    }
}

/// Resolve an `Include` pattern to the path (or path pattern) to read.
pub fn resolve_include(pattern: &str, config_dir: Option<&str>, home: Option<&str>) -> (r: String)
    ensures
        r@ == spec_resolve_include(
            pattern@,
            (match config_dir {
                Some(d) => Some(d@),
                None => None,
            }),
            (match home {
                Some(h) => Some(h@),
                None => None,
            }),
    ),
{
    let len = pattern.unicode_len();
    if len > 0 && (pattern.get_char(0) == '~' || pattern.get_char(0) == '/') {
        return expand_tilde(pattern, home);
    }
    match config_dir {
        Some(d) => {
            let mut s = String::new();
            s.append(d);
            s.append("/");
            s.append(pattern);
            proof {
                reveal_strlit("/");
                assert(s@ =~= d@ + seq!['/'] + pattern@);
            }
            s
        },
        None => pattern.to_owned(),
    }
}

// ---------- the config parser ----------

/// One item met while parsing a config: a host entry, or an `Include`
/// directive whose files the caller reads and splices in.
#[derive(Debug, Clone)]
pub enum ConfigItem {
    HostEntry(SshHost),
    IncludeDirective(String),
}

/// Mathematical image of a `ConfigItem`.
#[verifier::ext_equal]
pub enum ItemV {
    HostEntry(HostV),
    IncludeDirective(Seq<char>),
}

impl View for ConfigItem {
    type V = ItemV;

    open spec fn view(&self) -> ItemV {
        match self {
            ConfigItem::HostEntry(h) => ItemV::HostEntry(h@),
            ConfigItem::IncludeDirective(p) => ItemV::IncludeDirective(p@),
        }
    }
}

pub open spec fn items_view(v: Seq<ConfigItem>) -> Seq<ItemV> {
    v.map_values(|it: ConfigItem| it@)
}

pub open spec fn hosts_view(v: Seq<SshHost>) -> Seq<HostV> {
    v.map_values(|h: SshHost| h@)
}

pub open spec fn opt_host_view(c: Option<SshHost>) -> Option<HostV> {
    match c {
        Some(h) => Some(h@),
        None => None,
    }
}

/// A fresh entry for a `Host` block with the given name.
pub open spec fn spec_new_host(name: Seq<char>) -> HostV {
    HostV {
        name: name,
        hostname: None,
        user: None,
        port: None,
        identity_file: None,
        proxy_jump: None,
    }
}

/// Close the open host block: it becomes an item unless its pattern is
/// wildcard-only.
pub open spec fn spec_flush(cur: Option<HostV>) -> Seq<ItemV> {
    match cur {
        Some(h) => if !spec_is_wildcard_only(h.name) {
            seq![ItemV::HostEntry(h)]
        } else {
            Seq::empty()
        },
        None => Seq::empty(),
    }
}

/// Apply one `keyword value` pair to the open host block.
pub open spec fn spec_update_host(h: HostV, kw: Seq<char>, value: Seq<char>) -> HostV {
    if spec_ieq(kw, "hostname"@) {
        HostV { hostname: Some(value), ..h }
    } else if spec_ieq(kw, "user"@) {
        HostV { user: Some(value), ..h }
    } else if spec_ieq(kw, "port"@) {
        match spec_parse_u16(value) {
            Some(p) => HostV { port: Some(p), ..h },
            None => h,
        }
    } else if spec_ieq(kw, "identityfile"@) {
        HostV { identity_file: Some(value), ..h }
    } else if spec_ieq(kw, "proxyjump"@) {
        HostV { proxy_jump: Some(value), ..h }
    } else {
        h
    }
}

/// What one config line contributes: items it closes, and the open host
/// block afterwards.
pub open spec fn spec_apply_line(line: Seq<char>, cur: Option<HostV>) -> (Seq<ItemV>, Option<
    HostV,
>) {
    let l = spec_trim(line);
    if l.len() == 0 || l[0] == '#' {
        (Seq::empty(), cur)
    } else {
        match spec_split_config_line(l) {
            None => (Seq::empty(), cur),
            Some((kw, value)) => {
                if spec_ieq(kw, "host"@) {
                    (
                        spec_flush(cur),
                        if !spec_is_wildcard_only(value) {
                            Some(spec_new_host(value))
                        } else {
                            None
                        },
                    )
                } else if spec_ieq(kw, "match"@) {
                    (spec_flush(cur), None)
                } else if spec_ieq(kw, "include"@) {
                    (spec_flush(cur) + seq![ItemV::IncludeDirective(value)], None)
                } else {
                    match cur {
                        None => (Seq::empty(), None),
                        Some(h) => (Seq::empty(), Some(spec_update_host(h, kw, value))),
                    }
                }
            },
        }
    }
}

/// Fold the parser over the lines from index `i` on.
pub open spec fn spec_parse_lines(lines: Seq<Seq<char>>, i: int, cur: Option<HostV>) -> Seq<ItemV>
    decreases lines.len() - i,
    when 0 <= i <= lines.len()
{
    if i == lines.len() {
        spec_flush(cur)
    } else {
        let (out, cur2) = spec_apply_line(lines[i], cur);
        out + spec_parse_lines(lines, i + 1, cur2)
    }
}

/// The items of a whole config text.
pub open spec fn spec_parse_items(content: Seq<char>) -> Seq<ItemV> {
    spec_parse_lines(spec_lines(content), 0, None)
}

/// The host entries among the items, in order, includes skipped.
pub open spec fn spec_hosts_of(items: Seq<ItemV>) -> Seq<HostV>
    decreases items.len(),
{
    if items.len() == 0 {
        Seq::empty()
    } else {
        let rest = spec_hosts_of(items.drop_last());
        match items.last() {
            ItemV::HostEntry(h) => rest.push(h),
            ItemV::IncludeDirective(_) => rest,
        }
    }
}

/// The hosts a config text declares itself, includes skipped.
pub open spec fn spec_parse_hosts(content: Seq<char>) -> Seq<HostV> {
    spec_hosts_of(spec_parse_items(content))
}

fn flush_cur(out: &mut Vec<ConfigItem>, cur: Option<SshHost>)
    ensures
        items_view(final(out)@) == items_view(old(out)@) + spec_flush(opt_host_view(cur)),
{
    match cur {
        Some(h) => {
            if !is_wildcard_only(h.name.as_str()) {
                let ghost hv = h@;
                out.push(ConfigItem::HostEntry(h));
                proof {
                    assert(items_view(out@) =~= items_view(old(out)@) + seq![
                        ItemV::HostEntry(hv),
                    ]);
                }
            } else {
                proof {
                    assert(items_view(out@) =~= items_view(old(out)@) + Seq::<ItemV>::empty());
                }
            }
        },
        None => {
            proof {
                assert(items_view(out@) =~= items_view(old(out)@) + Seq::<ItemV>::empty());
            }
        },
    }
}

/// Run one line of config through the parser state.
fn apply_line(line: &str, cur: Option<SshHost>) -> (r: (Vec<ConfigItem>, Option<SshHost>))
    ensures
        ({
            let (sout, scur) = spec_apply_line(line@, opt_host_view(cur));
            items_view(r.0@) == sout && opt_host_view(r.1) == scur
        }),
{
    let l = trim_str(line);
    let llen = l.unicode_len();
    let mut out: Vec<ConfigItem> = Vec::new();
    proof {
        assert(items_view(out@) =~= Seq::<ItemV>::empty());
    }
    if llen == 0 || l.get_char(0) == '#' {
        return (out, cur);
    }
    match split_config_line(l) {
        None => (out, cur),
        Some((kw, value)) => {
            if eq_ignore_case(kw, "host") {
                flush_cur(&mut out, cur);
                proof {
                    assert(items_view(out@) =~= Seq::<ItemV>::empty() + items_view(out@));
                }
                let ncur = if !is_wildcard_only(value) {
                    Some(
                        SshHost {
                            name: value.to_owned(),
                            hostname: None,
                            user: None,
                            port: None,
                            identity_file: None,
                            proxy_jump: None,
                        },
                    )
                } else {
                    None
                };
                (out, ncur)
            } else if eq_ignore_case(kw, "match") {
                flush_cur(&mut out, cur);
                proof {
                    assert(items_view(out@) =~= Seq::<ItemV>::empty() + items_view(out@));
                }
                (out, None)
            } else if eq_ignore_case(kw, "include") {
                flush_cur(&mut out, cur);
                out.push(ConfigItem::IncludeDirective(value.to_owned()));
                proof {
                    assert(items_view(out@) =~= spec_flush(opt_host_view(cur)) + seq![
                        ItemV::IncludeDirective(value@),
                    ]);
                }
                (out, None)
            } else {
                match cur {
                    None => (out, None),
                    Some(h) => {
                        let mut h = h;
                        if eq_ignore_case(kw, "hostname") {
                            h.hostname = Some(value.to_owned());
                        } else if eq_ignore_case(kw, "user") {
                            h.user = Some(value.to_owned());
                        } else if eq_ignore_case(kw, "port") {
                            if let Some(p) = parse_u16(value) {
                                h.port = Some(p);
                            }
                        } else if eq_ignore_case(kw, "identityfile") {
                            h.identity_file = Some(value.to_owned());
                        } else if eq_ignore_case(kw, "proxyjump") {
                            h.proxy_jump = Some(value.to_owned());
                        }
                        (out, Some(h))
                    },
                }
            }
        },
    }
}

/// Parse a config text into its items: host entries and include directives.
pub fn parse_config_items(content: &str) -> (r: Vec<ConfigItem>)
    ensures
        items_view(r@) == spec_parse_items(content@),
{
    let lines = split_lines(content);
    let ghost lv = spec_lines(content@);
    let n = lines.len();
    let mut out: Vec<ConfigItem> = Vec::new();
    let mut cur: Option<SshHost> = None;
    let mut i: usize = 0;
    proof {
        assert(items_view(out@) =~= Seq::<ItemV>::empty());
        assert(Seq::<ItemV>::empty() + spec_parse_lines(lv, 0, None) =~= spec_parse_lines(
            lv,
            0,
            None,
        ));
    }
    while i < n
        invariant
            n == lines@.len(),
            lv == spec_lines(content@),
            lines@.len() == lv.len(),
            forall|k: int| 0 <= k < lv.len() ==> lines@[k]@ == lv[k],
            0 <= i <= n,
            items_view(out@) + spec_parse_lines(lv, i as int, opt_host_view(cur))
                == spec_parse_items(content@),
        decreases n - i,
    {
        let line = lines[i];
        let taken = cur.take();
        let (mut add, ncur) = apply_line(line, taken);
        let ghost add_v = items_view(add@);
        let ghost pre_out = items_view(out@);
        out.append(&mut add);
        cur = ncur;
        proof {
            assert(items_view(out@) =~= pre_out + add_v);
            let (sout, scur) = spec_apply_line(lv[i as int], opt_host_view(taken));
            assert(spec_parse_lines(lv, i as int, opt_host_view(taken)) == sout
                + spec_parse_lines(lv, i + 1, scur));
            assert((pre_out + add_v) + spec_parse_lines(lv, i + 1, scur) =~= pre_out + (add_v
                + spec_parse_lines(lv, i + 1, scur)));
        }
        i += 1;
    }
    flush_cur(&mut out, cur);
    proof {
        assert(items_view(out@) =~= spec_parse_items(content@));
    }
    out
}

/// Parse a config text into its host entries. `Include` directives are
/// reported as items by `parse_config_items` and resolved by the caller,
/// who reads the files against `config_dir` and splices the results in
/// with `splice_items`; they contribute no hosts here. Always succeeds.
pub fn parse_ssh_config_content(content: &str, config_dir: Option<&str>) -> (r: Result<
    Vec<SshHost>,
    StmError,
>)
    ensures
        r is Ok,
        hosts_view(r->Ok_0@) == spec_parse_hosts(content@),
{
    let items = parse_config_items(content);
    let ghost iv = items_view(items@);
    let mut hosts: Vec<SshHost> = Vec::new();
    let mut items = items;
    let mut i: usize = 0;
    let n = items.len();
    proof {
        assert(hosts_view(hosts@) =~= Seq::<HostV>::empty());
        assert(spec_hosts_of(iv.take(0)) =~= Seq::<HostV>::empty());
    }
    while i < n
        invariant
            n == items@.len(),
            iv == items_view(items@),
            0 <= i <= n,
            hosts_view(hosts@) == spec_hosts_of(iv.take(i as int)),
        decreases n - i,
    {
        let ghost pre = hosts_view(hosts@);
        match &items[i] {
            ConfigItem::HostEntry(h) => {
                let hc = clone_host(h);
                hosts.push(hc);
                proof {
                    assert(hosts_view(hosts@) =~= pre.push(items@[i as int]@->HostEntry_0));
                }
            },
            ConfigItem::IncludeDirective(_) => {},
        }
        proof {
            assert(iv.take(i + 1).drop_last() =~= iv.take(i as int));
            assert(iv.take(i + 1).last() == iv[i as int]);
        }
        i += 1;
    }
    proof {
        assert(iv.take(n as int) =~= iv);
    }
    Ok(hosts)
}

/// A copy of a host entry whose fields read the same.
pub fn clone_host(h: &SshHost) -> (r: SshHost)
    ensures
        r@ == h@,
{
    SshHost {
        name: clone_string(&h.name),
        hostname: clone_opt_string(&h.hostname),
        user: clone_opt_string(&h.user),
        port: h.port,
        identity_file: clone_opt_string(&h.identity_file),
        proxy_jump: clone_opt_string(&h.proxy_jump),
    }
}

fn clone_string(s: &String) -> (r: String)
    ensures
        r@ == s@,
{
    s.as_str().to_owned()
}

fn clone_opt_string(s: &Option<String>) -> (r: Option<String>)
    ensures
        opt_str_view(r) == opt_str_view(*s),
{
    match s {
        Some(x) => Some(x.as_str().to_owned()),
        None => None,
    }
}

/// Hosts of a parsed item list with each `Include`'s hosts spliced in at
/// the directive's position, in order.
pub open spec fn spec_splice(items: Seq<ItemV>, res: Seq<Seq<HostV>>) -> Seq<HostV>
    decreases items.len(),
{
    if items.len() == 0 {
        Seq::empty()
    } else {
        match items[0] {
            ItemV::HostEntry(h) => seq![h] + spec_splice(items.skip(1), res),
            ItemV::IncludeDirective(_) => {
                if res.len() > 0 {
                    res[0] + spec_splice(items.skip(1), res.skip(1))
                } else {
                    spec_splice(items.skip(1), res)
                }
            },
        }
    }
}

/// Splice the hosts read for each `Include` (one list per directive, in
/// order) into the item list, keeping declaration order.
pub fn splice_items(items: Vec<ConfigItem>, resolved: Vec<Vec<SshHost>>) -> (r: Vec<SshHost>)
    ensures
        hosts_view(r@) == spec_splice(items_view(items@), resolved@.map_values(|v: Vec<SshHost>| hosts_view(v@))),
{
    let ghost items0 = items_view(items@);
    let ghost res0 = resolved@.map_values(|v: Vec<SshHost>| hosts_view(v@));
    let mut items = items;
    let mut resolved = resolved;
    let mut out: Vec<SshHost> = Vec::new();
    proof {
        assert(hosts_view(out@) =~= Seq::<HostV>::empty());
        assert(Seq::<HostV>::empty() + spec_splice(items0, res0) =~= spec_splice(items0, res0));
        assert(items@.map_values(|it: ConfigItem| it@) =~= items0);
    }
    while items.len() > 0
        invariant
            hosts_view(out@) + spec_splice(items_view(items@), resolved@.map_values(|v: Vec<SshHost>| hosts_view(v@)))
                == spec_splice(items0, res0),
        decreases items@.len(),
    {
        let ghost pre = hosts_view(out@);
        let ghost itv = items_view(items@);
        let ghost rsv = resolved@.map_values(|v: Vec<SshHost>| hosts_view(v@));
        let it = items.remove(0);
        proof {
            assert(items_view(items@) =~= itv.skip(1));
        }
        match it {
            ConfigItem::HostEntry(h) => {
                let ghost hv = h@;
                out.push(h);
                proof {
                    assert(hosts_view(out@) =~= pre + seq![hv]);
                    assert((pre + seq![hv]) + spec_splice(itv.skip(1), rsv) =~= pre + (seq![hv]
                        + spec_splice(itv.skip(1), rsv)));
                }
            },
            ConfigItem::IncludeDirective(_) => {
                if resolved.len() > 0 {
                    let mut chunk = resolved.remove(0);
                    let ghost cv = hosts_view(chunk@);
                    out.append(&mut chunk);
                    proof {
                        assert(resolved@.map_values(|v: Vec<SshHost>| hosts_view(v@)) =~= rsv.skip(
                            1,
                        ));
                        assert(cv == rsv[0]);
                        assert(hosts_view(out@) =~= pre + cv);
                        assert((pre + cv) + spec_splice(itv.skip(1), rsv.skip(1)) =~= pre + (cv
                            + spec_splice(itv.skip(1), rsv.skip(1))));
                    }
                }
            },
        }
    }
    proof {
        assert(items_view(items@) =~= Seq::<ItemV>::empty());
        assert(hosts_view(out@) + Seq::<HostV>::empty() =~= hosts_view(out@));
    }
    out
}

} // verus!
