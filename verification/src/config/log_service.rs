//! The log service and the layout of its replication groups over hosts and disks.
use crate::config::disk_matrix::{
    build_disk_matrix, default_pair, disk_matrix, final_state, groups_match, host_order, hosts_of_nodes,
    lemma_host_order_sorted, matrix_view, ports_in_order, read_memberships, NodeDiskIndexPair,
};
use crate::ordered_map::{entry_index, index_map_entries, index_map_get, index_map_insert, index_map_new};
use crate::text::{copy_string, decimal, dedup, join_strings, lemma_dedup, seq_join, u64_to_string, unique_strings, usize_to_string};
use indexmap::IndexMap;
use std::collections::HashMap;
use vstd::prelude::*;

verus! {

broadcast use vstd::std_specs::hash::group_hash_axioms;

/// Replicas per log group when the deployment does not name a number.
pub const LOG_SRV_REPLICA_NUM: usize = 3;

/// A host of the log service, with its data directories and its first port.
#[derive(PartialEq, Debug, Clone)]
pub struct LogServiceNode {
    pub host: String,
    pub data_dir: Vec<String>,
    pub port: u16,
}

/// The log service of a deployment: its hosts, the replicas per group and
/// the readiness probe settings.
#[derive(PartialEq, Debug, Clone)]
pub struct LogService {
    pub nodes: Vec<LogServiceNode>,
    pub replica: Option<u32>,
    pub readiness: Option<LogReadiness>,
}

/// How the readiness of log processes is probed.
#[derive(PartialEq, Eq, Debug, Clone, Copy)]
pub struct LogReadiness {
    pub timeout_sec: u64,
    pub delay_ms: Option<usize>,
    pub success_threshold: Option<usize>,
}

impl Default for LogReadiness {
    /// A 300 s timeout, no delay and three consecutive successes.
    fn default() -> (r: Self)
        ensures
            r.timeout_sec == 300,
            r.delay_ms is None,
            r.success_threshold == Some(3usize),
    {
        LogReadiness { timeout_sec: 300, delay_ms: None, success_threshold: Some(3) }
    }
}

/// Identifies a log process by host and port.
#[derive(PartialEq, Eq, Hash, Debug, Clone)]
pub struct LogProcessKey {
    pub host: String,
    pub port: u16,
}

impl LogProcessKey {
    /// `{host}:{port}`.
    pub fn to_string(&self) -> (s: String)
        ensures
            s@ == self.host@ + ":"@ + decimal(self.port as nat),
    {
        proof {
            reveal_strlit(":");
        }
        let mut s = copy_string(&self.host);
        s.append(":");
        s.append(u64_to_string(self.port as u64).as_str());
        s
    }
}

/// One member process of a log group.
#[derive(PartialEq, Eq, Hash, Debug, Clone)]
pub struct LogGroupMember {
    pub node_id: usize,
    pub group_id: usize,
    pub member_host: String,
    pub port: u16,
    pub storage_path: String,
    pub check_health_url: String,
}

/// The contents of a log group member.
pub struct MemberView {
    pub node_id: usize,
    pub group_id: usize,
    pub member_host: Seq<char>,
    pub port: u16,
    pub storage_path: Seq<char>,
    pub check_health_url: Seq<char>,
}

impl View for LogGroupMember {
    type V = MemberView;

    open spec fn view(&self) -> MemberView {
        MemberView {
            node_id: self.node_id,
            group_id: self.group_id,
            member_host: self.member_host@,
            port: self.port,
            storage_path: self.storage_path@,
            check_health_url: self.check_health_url@,
        }
    }
}

/// The members of each group, by their contents.
pub open spec fn groups_view(groups: Seq<Vec<LogGroupMember>>) -> Seq<Seq<MemberView>> {
    groups.map_values(|g: Vec<LogGroupMember>| g@.map_values(|m: LogGroupMember| m@))
}

// ---------------------------------------------------------------------------
// The layout of log groups.
//
// Group `g` takes `r` node slots starting at node index `g * r`; slot `idx`
// of the group lands on a node index that is clamped to the last node, or,
// in the wrapping variant, wrapped once around the node list. The first member
// placed on a host listens on that host's configured port; a later member on
// the same host listens on that first port plus `g + idx`.
// ---------------------------------------------------------------------------

/// The node index where a group starting at node index `start` begins.
pub open spec fn group_from(start: int, n: int) -> int {
    if start > n { 0 } else { start }
}

/// The node index of slot `idx` of a group that begins at `from`.
pub open spec fn slot_node_index(from: int, idx: int, n: int, wrap: bool) -> int {
    if from + idx > n - 1 {
        if wrap { from + idx - n } else { n - 1 }
    } else {
        from + idx
    }
}

/// The node index of slot `idx` of group `g`.
pub open spec fn slot_node(nodes: Seq<LogServiceNode>, r: nat, wrap: bool, g: nat, idx: nat) -> int {
    slot_node_index(group_from((g * r) as int, nodes.len() as int), idx as int, nodes.len() as int, wrap)
}

/// The first value stored for `key` in an association sequence.
pub open spec fn assoc_find(s: Seq<(Seq<char>, u16)>, key: Seq<char>) -> Option<u16>
    decreases s.len(),
{
    if s.len() == 0 {
        None
    } else {
        match assoc_find(s.drop_last(), key) {
            Some(v) => Some(v),
            None => if s.last().0 == key { Some(s.last().1) } else { None },
        }
    }
}

/// The port usage after a member on `host` with configured port `port` is placed.
pub open spec fn usage_step(u: Seq<(Seq<char>, u16)>, host: Seq<char>, port: u16) -> Seq<(Seq<char>, u16)> {
    if assoc_find(u, host) is Some { u } else { u.push((host, port)) }
}

/// The first port of each host, as recorded before slot `idx` of group `g` is placed.
pub open spec fn usage_before(nodes: Seq<LogServiceNode>, r: nat, wrap: bool, g: nat, idx: nat) -> Seq<(Seq<char>, u16)>
    decreases g, idx,
{
    if idx > 0 {
        let prev = (idx - 1) as nat;
        let node = nodes[slot_node(nodes, r, wrap, g, prev)];
        usage_step(usage_before(nodes, r, wrap, g, prev), node.host@, node.port)
    } else if g > 0 {
        usage_before(nodes, r, wrap, (g - 1) as nat, r)
    } else {
        Seq::empty()
    }
}

/// The port of the member in slot `idx` of group `g`.
pub open spec fn slot_port_value(nodes: Seq<LogServiceNode>, r: nat, wrap: bool, g: nat, idx: nat) -> int {
    let node = nodes[slot_node(nodes, r, wrap, g, idx)];
    match assoc_find(usage_before(nodes, r, wrap, g, idx), node.host@) {
        Some(p) => p + (g + idx) % 65536,
        None => node.port as int,
    }
}

/// The data directory used by the member in slot `idx` of group `g`: the
/// directory at the node's own index, or the node's last directory when it has fewer.
pub open spec fn slot_data_dir(nodes: Seq<LogServiceNode>, r: nat, wrap: bool, g: nat, idx: nat) -> Seq<char> {
    let id = slot_node(nodes, r, wrap, g, idx);
    let dirs = nodes[id].data_dir@;
    if id >= dirs.len() { dirs.last()@ } else { dirs[id]@ }
}

/// `{data_dir}/group_{g}_node_{idx}`.
pub open spec fn storage_path_text(dir: Seq<char>, g: nat, idx: nat) -> Seq<char> {
    dir + "/group_"@ + decimal(g) + "_node_"@ + decimal(idx)
}

/// `{prefix}{host}:{port}/healthz`.
pub open spec fn health_url_text(prefix: Seq<char>, host: Seq<char>, port: u16) -> Seq<char> {
    prefix + host + ":"@ + decimal(port as nat) + "/healthz"@
}

/// The member placed in slot `idx` of group `g`.
pub open spec fn slot_member(nodes: Seq<LogServiceNode>, r: nat, wrap: bool, prefix: Seq<char>, g: nat, idx: nat) -> MemberView {
    let node = nodes[slot_node(nodes, r, wrap, g, idx)];
    let port = slot_port_value(nodes, r, wrap, g, idx) as u16;
    MemberView {
        node_id: idx as usize,
        group_id: g as usize,
        member_host: node.host@,
        port,
        storage_path: storage_path_text(slot_data_dir(nodes, r, wrap, g, idx), g, idx),
        check_health_url: health_url_text(prefix, node.host@, port),
    }
}

/// The members of all `groups` groups.
pub open spec fn layout(nodes: Seq<LogServiceNode>, r: nat, wrap: bool, prefix: Seq<char>, groups: nat) -> Seq<Seq<MemberView>> {
    Seq::new(groups, |g: int| Seq::new(r, |idx: int| slot_member(nodes, r, wrap, prefix, g as nat, idx as nat)))
}

/// The slot is well placed: it lands on a node, that node has a directory to
/// use, and its port does not pass 65535.
pub open spec fn slot_ok(nodes: Seq<LogServiceNode>, r: nat, wrap: bool, g: nat, idx: nat) -> bool {
    let id = slot_node(nodes, r, wrap, g, idx);
    &&& 0 <= id < nodes.len()
    &&& (id >= nodes[id].data_dir@.len() ==> nodes[id].data_dir@.len() > 0)
    &&& slot_port_value(nodes, r, wrap, g, idx) <= 65535
}

/// The layout of `groups` groups of `r` members can be computed without a panic.
pub open spec fn layout_ok(nodes: Seq<LogServiceNode>, r: nat, wrap: bool, groups: nat) -> bool {
    &&& r > 0
    &&& nodes.len() > 0
    &&& nodes.len() + r <= usize::MAX
    &&& groups * r <= usize::MAX
    &&& groups + r <= usize::MAX
    &&& forall|g: nat, idx: nat| g < groups && idx < r ==> #[trigger] slot_ok(nodes, r, wrap, g, idx)
}

/// `assoc_find` finds the first entry with the key.
proof fn lemma_assoc_find_first(s: Seq<(Seq<char>, u16)>, key: Seq<char>, i: int)
    requires
        0 <= i <= s.len(),
        forall|j: int| 0 <= j < i ==> s[j].0 != key,
    ensures
        i < s.len() && s[i].0 == key ==> assoc_find(s, key) == Some(s[i].1),
        i == s.len() ==> assoc_find(s, key) is None,
    decreases s.len(),
{
    if s.len() > 0 {
        if i < s.len() {
            if i < s.len() - 1 {
                lemma_assoc_find_first(s.drop_last(), key, i);
            } else {
                lemma_assoc_find_first(s.drop_last(), key, i);
            }
        } else {
            lemma_assoc_find_first(s.drop_last(), key, i - 1);
        }
    }
}

/// The contents of a port-usage vector.
pub open spec fn usage_view(v: Seq<(String, u16)>) -> Seq<(Seq<char>, u16)> {
    v.map_values(|p: (String, u16)| (p.0@, p.1))
}

pub(crate) fn find_port(usage: &Vec<(String, u16)>, host: &String) -> (res: Option<u16>)
    ensures
        res == assoc_find(usage_view(usage@), host@),
{
    let ghost s = usage_view(usage@);
    let mut i: usize = 0;
    while i < usage.len()
        invariant
            0 <= i <= usage.len(),
            s == usage_view(usage@),
            forall|j: int| 0 <= j < i ==> s[j].0 != host@,
        decreases usage.len() - i,
    {
        if usage[i].0 == *host {
            proof {
                lemma_assoc_find_first(s, host@, i as int);
            }
            return Some(usage[i].1);
        }
        i = i + 1;
    }
    proof {
        lemma_assoc_find_first(s, host@, i as int);
    }
    None
}

/// The node indices of the `r` slots of a group that starts at node index `start`.
pub open spec fn node_ids_spec(n: nat, r: nat, wrap: bool, start: nat) -> Seq<int> {
    Seq::new(r, |idx: int| slot_node_index(group_from(start as int, n as int), idx, n as int, wrap))
}

/// Computes the node indices of the slots of a group starting at `start`.
pub fn layout_node_ids(n: usize, r: usize, wrap: bool, start: usize) -> (ids: Vec<usize>)
    requires
        n > 0,
        n + r <= usize::MAX,
        wrap ==> forall|idx: int| 0 <= idx < r ==> #[trigger] slot_node_index(group_from(start as int, n as int), idx, n as int, wrap) >= 0,
    ensures
        ids@.len() == r,
        forall|idx: int| 0 <= idx < r ==> ids@[idx] as int == #[trigger] node_ids_spec(n as nat, r as nat, wrap, start as nat)[idx],
{
    let from = if start > n { 0 } else { start };
    let mut ids: Vec<usize> = Vec::new();
    let mut idx: usize = 0;
    while idx < r
        invariant
            0 <= idx <= r,
            n > 0,
            n + r <= usize::MAX,
            from == group_from(start as int, n as int),
            from <= n,
            wrap ==> forall|k: int| 0 <= k < r ==> #[trigger] slot_node_index(group_from(start as int, n as int), k, n as int, wrap) >= 0,
            ids@.len() == idx,
            forall|k: int| 0 <= k < idx ==> ids@[k] as int == #[trigger] node_ids_spec(n as nat, r as nat, wrap, start as nat)[k],
        decreases r - idx,
    {
        let id = if from + idx > n - 1 {
            if wrap {
                assert(slot_node_index(group_from(start as int, n as int), idx as int, n as int, wrap) >= 0);
                from + idx - n
            } else {
                n - 1
            }
        } else {
            from + idx
        };
        ids.push(id);
        idx = idx + 1;
    }
    ids
}

fn storage_path_of(dir: &String, g: usize, idx: usize) -> (s: String)
    ensures
        s@ == storage_path_text(dir@, g as nat, idx as nat),
{
    proof {
        reveal_strlit("/group_");
        reveal_strlit("_node_");
    }
    let mut s = copy_string(dir);
    s.append("/group_");
    s.append(usize_to_string(g).as_str());
    s.append("_node_");
    s.append(usize_to_string(idx).as_str());
    s
}

fn health_url_of(prefix: &str, host: &String, port: u16) -> (s: String)
    ensures
        s@ == health_url_text(prefix@, host@, port),
{
    proof {
        reveal_strlit(":");
        reveal_strlit("/healthz");
    }
    let mut s = String::from_str(prefix);
    s.append(host.as_str());
    s.append(":");
    s.append(u64_to_string(port as u64).as_str());
    s.append("/healthz");
    s
}

/// Places the members of `groups` groups of `r` slots over `nodes`.
pub fn layout_members(nodes: &Vec<LogServiceNode>, r: usize, wrap: bool, prefix: &str, groups: usize) -> (res: Vec<Vec<LogGroupMember>>)
    requires
        layout_ok(nodes@, r as nat, wrap, groups as nat),
    ensures
        groups_view(res@) == layout(nodes@, r as nat, wrap, prefix@, groups as nat),
{
    let n = nodes.len();
    let mut res: Vec<Vec<LogGroupMember>> = Vec::new();
    let mut usage: Vec<(String, u16)> = Vec::new();
    let mut start: usize = 0;
    let mut g: usize = 0;
    while g < groups
        invariant
            0 <= g <= groups,
            n == nodes@.len(),
            layout_ok(nodes@, r as nat, wrap, groups as nat),
            start == g * r,
            usage_view(usage@) == usage_before(nodes@, r as nat, wrap, g as nat, 0),
            res@.len() == g,
            groups_view(res@) =~= layout(nodes@, r as nat, wrap, prefix@, groups as nat).take(g as int),
        decreases groups - g,
    {
        proof {
            assert(g * r <= groups * r) by (nonlinear_arith)
                requires g <= groups;
            assert((g + 1) * r == g * r + r) by (nonlinear_arith);
            assert((g + 1) * r <= groups * r) by (nonlinear_arith)
                requires g + 1 <= groups;
            assert forall|idx: int| 0 <= idx < r implies
                #[trigger] slot_node_index(group_from(start as int, n as int), idx, n as int, wrap) >= 0 by {
                assert(slot_ok(nodes@, r as nat, wrap, g as nat, idx as nat));
            }
        }
        let ids = layout_node_ids(n, r, wrap, start);
        proof {
            assert forall|k: int| 0 <= k < r implies ids@[k] as int == #[trigger] slot_node(nodes@, r as nat, wrap, g as nat, k as nat) by {
                assert(ids@[k] as int == node_ids_spec(n as nat, r as nat, wrap, start as nat)[k]);
            }
        }
        let mut members: Vec<LogGroupMember> = Vec::new();
        let mut idx: usize = 0;
        while idx < r
            invariant
                0 <= idx <= r,
                g < groups,
                n == nodes@.len(),
                layout_ok(nodes@, r as nat, wrap, groups as nat),
                start == g * r,
                ids@.len() == r,
                forall|k: int| 0 <= k < r ==> #[trigger] ids@[k] as int == slot_node(nodes@, r as nat, wrap, g as nat, k as nat),
                usage_view(usage@) == usage_before(nodes@, r as nat, wrap, g as nat, idx as nat),
                members@.len() == idx,
                forall|k: int| 0 <= k < idx ==> (#[trigger] members@[k])@ == slot_member(nodes@, r as nat, wrap, prefix@, g as nat, k as nat),
            decreases r - idx,
        {
            assert(ids@[idx as int] as int == slot_node(nodes@, r as nat, wrap, g as nat, idx as nat));
            assert(slot_ok(nodes@, r as nat, wrap, g as nat, idx as nat));
            let id = ids[idx];
            let node = &nodes[id];
            let port: u16 = match find_port(&usage, &node.host) {
                None => {
                    let ghost before = usage@;
                    usage.push((copy_string(&node.host), node.port));
                    proof {
                        assert(usage_view(usage@) =~= usage_view(before).push((node.host@, node.port)));
                    }
                    node.port
                },
                Some(p) => {
                    let off: u16 = ((g + idx) % 65536) as u16;
                    p + off
                },
            };
            let dir: &String = if id >= node.data_dir.len() {
                &node.data_dir[node.data_dir.len() - 1]
            } else {
                &node.data_dir[id]
            };
            let member = LogGroupMember {
                node_id: idx,
                group_id: g,
                member_host: copy_string(&node.host),
                port,
                storage_path: storage_path_of(dir, g, idx),
                check_health_url: health_url_of(prefix, &node.host, port),
            };
            members.push(member);
            idx = idx + 1;
        }
        proof {
            assert(usage_before(nodes@, r as nat, wrap, (g + 1) as nat, 0) == usage_before(nodes@, r as nat, wrap, g as nat, r as nat));
        }
        let ghost before = res@;
        res.push(members);
        proof {
            let lay = layout(nodes@, r as nat, wrap, prefix@, groups as nat);
            let mv = members@.map_values(|m: LogGroupMember| m@);
            assert forall|i: int| 0 <= i < r implies mv[i] == lay[g as int][i] by {
                assert(members@[i]@ == slot_member(nodes@, r as nat, wrap, prefix@, g as nat, i as nat));
            }
            assert(mv =~= lay[g as int]);
            assert(groups_view(res@) =~= groups_view(before).push(mv));
            assert(lay.take(g + 1) =~= lay.take(g as int).push(lay[g as int]));
        }
        start = start + r;
        g = g + 1;
    }
    assert(layout(nodes@, r as nat, wrap, prefix@, groups as nat).take(groups as int) =~= layout(nodes@, r as nat, wrap, prefix@, groups as nat));
    res
}

/// Whether the layout of `groups` groups of `r` slots over `nodes` can be
/// computed without a panic.
pub fn layout_check(nodes: &Vec<LogServiceNode>, r: usize, wrap: bool, groups: usize) -> (ok: bool)
    ensures
        ok == layout_ok(nodes@, r as nat, wrap, groups as nat),
{
    let n = nodes.len();
    if r == 0 || n == 0 {
        return false;
    }
    if n.checked_add(r).is_none() || groups.checked_mul(r).is_none() || groups.checked_add(r).is_none() {
        return false;
    }
    let mut usage: Vec<(String, u16)> = Vec::new();
    let mut start: usize = 0;
    let mut g: usize = 0;
    while g < groups
        invariant
            0 <= g <= groups,
            n == nodes@.len(),
            n > 0,
            r > 0,
            n + r <= usize::MAX,
            groups * r <= usize::MAX,
            groups + r <= usize::MAX,
            start == g * r,
            usage_view(usage@) == usage_before(nodes@, r as nat, wrap, g as nat, 0),
            forall|g2: nat, idx: nat| g2 < g && idx < r ==> #[trigger] slot_ok(nodes@, r as nat, wrap, g2, idx),
        decreases groups - g,
    {
        proof {
            assert(g * r <= groups * r) by (nonlinear_arith)
                requires g <= groups;
            assert((g + 1) * r == g * r + r) by (nonlinear_arith);
            assert((g + 1) * r <= groups * r) by (nonlinear_arith)
                requires g + 1 <= groups;
            assert forall|idx: int| 0 <= idx < r implies
                #[trigger] slot_node_index(group_from(start as int, n as int), idx, n as int, wrap) >= 0 by {
            }
        }
        let ids = layout_node_ids(n, r, wrap, start);
        proof {
            assert forall|k: int| 0 <= k < r implies ids@[k] as int == #[trigger] slot_node(nodes@, r as nat, wrap, g as nat, k as nat) by {
                assert(ids@[k] as int == node_ids_spec(n as nat, r as nat, wrap, start as nat)[k]);
            }
        }
        let mut idx: usize = 0;
        while idx < r
            invariant
                0 <= idx <= r,
                g < groups,
                n == nodes@.len(),
                n > 0,
                r > 0,
                n + r <= usize::MAX,
                groups * r <= usize::MAX,
                groups + r <= usize::MAX,
                start == g * r,
                ids@.len() == r,
                forall|k: int| 0 <= k < r ==> #[trigger] ids@[k] as int == slot_node(nodes@, r as nat, wrap, g as nat, k as nat),
                usage_view(usage@) == usage_before(nodes@, r as nat, wrap, g as nat, idx as nat),
                forall|g2: nat, i2: nat| g2 < g && i2 < r ==> #[trigger] slot_ok(nodes@, r as nat, wrap, g2, i2),
                forall|i2: nat| i2 < idx ==> #[trigger] slot_ok(nodes@, r as nat, wrap, g as nat, i2),
            decreases r - idx,
        {
            assert(ids@[idx as int] as int == slot_node(nodes@, r as nat, wrap, g as nat, idx as nat));
            let id = ids[idx];
            if id >= n {
                assert(!slot_ok(nodes@, r as nat, wrap, g as nat, idx as nat));
                return false;
            }
            let node = &nodes[id];
            if id >= node.data_dir.len() && node.data_dir.len() == 0 {
                assert(!slot_ok(nodes@, r as nat, wrap, g as nat, idx as nat));
                return false;
            }
            match find_port(&usage, &node.host) {
                None => {
                    let ghost before = usage@;
                    usage.push((copy_string(&node.host), node.port));
                    proof {
                        assert(usage_view(usage@) =~= usage_view(before).push((node.host@, node.port)));
                    }
                },
                Some(p) => {
                    let off: u16 = ((g + idx) % 65536) as u16;
                    if p.checked_add(off).is_none() {
                        assert(!slot_ok(nodes@, r as nat, wrap, g as nat, idx as nat));
                        return false;
                    }
                },
            }
            assert(slot_ok(nodes@, r as nat, wrap, g as nat, idx as nat));
            idx = idx + 1;
        }
        proof {
            assert(usage_before(nodes@, r as nat, wrap, (g + 1) as nat, 0) == usage_before(nodes@, r as nat, wrap, g as nat, r as nat));
            assert forall|g2: nat, i2: nat| g2 < g + 1 && i2 < r implies #[trigger] slot_ok(nodes@, r as nat, wrap, g2, i2) by {
                if g2 < g {
                } else {
                    assert(g2 == g);
                }
            }
        }
        start = start + r;
        g = g + 1;
    }
    true
}

// ---------------------------------------------------------------------------
// Grouping members by log group and by host.
// ---------------------------------------------------------------------------

/// The contents of a sequence of members.
pub open spec fn members_view(ms: Seq<LogGroupMember>) -> Seq<MemberView> {
    ms.map_values(|m: LogGroupMember| m@)
}

/// `host:port` of a member.
pub open spec fn member_addr(m: MemberView) -> Seq<char> {
    m.member_host + ":"@ + decimal(m.port as nat)
}

/// Whether a member belongs to group `gid`.
pub open spec fn in_group(gid: usize) -> spec_fn(MemberView) -> bool {
    |m: MemberView| m.group_id == gid
}

/// Whether a member runs on host `h`.
pub open spec fn on_host(h: Seq<char>) -> spec_fn(MemberView) -> bool {
    |m: MemberView| m.member_host == h
}

/// The `host:port` list of group `gid`, in member order, joined by commas.
pub open spec fn group_config_text(ms: Seq<MemberView>, gid: usize) -> Seq<char> {
    seq_join(ms.filter(in_group(gid)).map_values(|m: MemberView| member_addr(m)), ","@)
}

/// The group ids of the members, each at its first occurrence.
pub open spec fn group_ids_of(ms: Seq<MemberView>) -> Seq<usize> {
    dedup(ms.map_values(|m: MemberView| m.group_id))
}

/// Each group id, in order of first occurrence, with its `host:port` list.
pub open spec fn member_config_entries(ms: Seq<MemberView>) -> Seq<(usize, Seq<char>)> {
    group_ids_of(ms).map_values(|gid: usize| (gid, group_config_text(ms, gid)))
}

/// The hosts of the members, each at its first occurrence.
pub open spec fn hosts_of(ms: Seq<MemberView>) -> Seq<Seq<char>> {
    dedup(ms.map_values(|m: MemberView| m.member_host))
}

/// Each host, in order of first occurrence, with its members in order.
pub open spec fn host_groups(ms: Seq<MemberView>) -> Seq<(Seq<char>, Seq<MemberView>)> {
    hosts_of(ms).map_values(|h: Seq<char>| (h, ms.filter(on_host(h))))
}

/// `filter` on a sequence extended by one element.
pub proof fn lemma_filter_push<A>(s: Seq<A>, x: A, pred: spec_fn(A) -> bool)
    ensures
        s.push(x).filter(pred) == if pred(x) { s.filter(pred).push(x) } else { s.filter(pred) },
{
    reveal(Seq::filter);
    assert(s.push(x).drop_last() =~= s);
}

/// `entry_index` finds the first entry with the key, and none when there is none.
pub proof fn lemma_entry_index(e: Seq<(usize, Seq<char>)>, k: usize)
    ensures
        entry_index(e, k) >= 0 ==> entry_index(e, k) < e.len() && e[entry_index(e, k)].0 == k,
        entry_index(e, k) < 0 ==> forall|j: int| 0 <= j < e.len() ==> e[j].0 != k,
        entry_index(e, k) >= 0 || entry_index(e, k) == -1,
    decreases e.len(),
{
    if e.len() > 0 {
        lemma_entry_index(e.drop_last(), k);
        if entry_index(e, k) < 0 {
            assert forall|j: int| 0 <= j < e.len() implies e[j].0 != k by {
                if j < e.len() - 1 {
                    assert(e.drop_last()[j] == e[j]);
                }
            }
        } else if entry_index(e.drop_last(), k) >= 0 {
            assert(e.drop_last()[entry_index(e, k)] == e[entry_index(e, k)]);
        }
    }
}

fn contains_usize(v: &Vec<usize>, x: usize) -> (found: bool)
    ensures
        found == v@.contains(x),
{
    let mut i: usize = 0;
    while i < v.len()
        invariant
            0 <= i <= v.len(),
            forall|j: int| 0 <= j < i ==> v@[j] != x,
        decreases v.len() - i,
    {
        if v[i] == x {
            assert(v@[i as int] == x);
            return true;
        }
        i = i + 1;
    }
    false
}

fn unique_group_ids(members: &[LogGroupMember]) -> (ids: Vec<usize>)
    ensures
        ids@ == group_ids_of(members_view(members@)),
{
    let ghost ms = members_view(members@);
    let mut ids: Vec<usize> = Vec::new();
    let mut i: usize = 0;
    while i < members.len()
        invariant
            0 <= i <= members.len(),
            ms == members_view(members@),
            ids@ == group_ids_of(ms.take(i as int)),
        decreases members.len() - i,
    {
        proof {
            let f = |m: MemberView| m.group_id;
            assert(ms.take(i + 1).map_values(f).drop_last() =~= ms.take(i as int).map_values(f));
            assert(ms.take(i + 1).map_values(f).last() == members@[i as int].group_id);
        }
        let gid = members[i].group_id;
        if !contains_usize(&ids, gid) {
            ids.push(gid);
        }
        i = i + 1;
    }
    assert(ms.take(members.len() as int) =~= ms);
    ids
}

fn member_addr_of(m: &LogGroupMember) -> (s: String)
    ensures
        s@ == member_addr(m@),
{
    proof {
        reveal_strlit(":");
    }
    let mut s = copy_string(&m.member_host);
    s.append(":");
    s.append(u64_to_string(m.port as u64).as_str());
    s
}

fn group_config_of(members: &[LogGroupMember], gid: usize) -> (s: String)
    ensures
        s@ == group_config_text(members_view(members@), gid),
{
    let ghost ms = members_view(members@);
    let ghost addr = |m: MemberView| member_addr(m);
    let mut addrs: Vec<String> = Vec::new();
    let mut i: usize = 0;
    while i < members.len()
        invariant
            0 <= i <= members.len(),
            ms == members_view(members@),
            addr == (|m: MemberView| member_addr(m)),
            addrs.deep_view() == ms.take(i as int).filter(in_group(gid)).map_values(addr),
        decreases members.len() - i,
    {
        proof {
            assert(ms.take(i + 1) =~= ms.take(i as int).push(members@[i as int]@));
            lemma_filter_push(ms.take(i as int), members@[i as int]@, in_group(gid));
        }
        if members[i].group_id == gid {
            let ghost before = addrs.deep_view();
            addrs.push(member_addr_of(&members[i]));
            assert(addrs.deep_view() =~= before.push(member_addr(members@[i as int]@)));
            assert(ms.take(i + 1).filter(in_group(gid)).map_values(addr) =~= before.push(member_addr(members@[i as int]@)));
        } else {
            assert(ms.take(i + 1).filter(in_group(gid)).map_values(addr) =~= addrs.deep_view());
        }
        i = i + 1;
    }
    assert(ms.take(members.len() as int) =~= ms);
    proof {
        reveal_strlit(",");
    }
    join_strings(&addrs, ",")
}

/// Builds the `host:port` list of every log group of `members`, keyed by
/// group id in order of first occurrence.
pub fn member_config(members: &[LogGroupMember]) -> (m: IndexMap<usize, String>)
    ensures
        index_map_entries(m) == member_config_entries(members_view(members@)),
{
    let ghost ms = members_view(members@);
    let ids = unique_group_ids(members);
    proof {
        lemma_dedup(ms.map_values(|m: MemberView| m.group_id));
    }
    let mut m = index_map_new();
    let mut j: usize = 0;
    while j < ids.len()
        invariant
            0 <= j <= ids.len(),
            ms == members_view(members@),
            ids@ == group_ids_of(ms),
            ids@.no_duplicates(),
            index_map_entries(m) == member_config_entries(ms).take(j as int),
        decreases ids.len() - j,
    {
        let text = group_config_of(members, ids[j]);
        proof {
            let e = member_config_entries(ms).take(j as int);
            lemma_entry_index(e, ids@[j as int]);
            if entry_index(e, ids@[j as int]) >= 0 {
                let p = entry_index(e, ids@[j as int]);
                assert(e[p].0 == ids@[p]);
                assert(false);
            }
            assert(member_config_entries(ms).take(j + 1) =~= e.push((ids@[j as int], text@)));
        }
        index_map_insert(&mut m, ids[j], text);
        j = j + 1;
    }
    assert(member_config_entries(ms).take(ids.len() as int) =~= member_config_entries(ms));
    m
}

/// Copies a member, keeping its contents.
pub fn copy_member(m: &LogGroupMember) -> (r: LogGroupMember)
    ensures
        r@ == m@,
{
    LogGroupMember {
        node_id: m.node_id,
        group_id: m.group_id,
        member_host: copy_string(&m.member_host),
        port: m.port,
        storage_path: copy_string(&m.storage_path),
        check_health_url: copy_string(&m.check_health_url),
    }
}

fn members_on_host(members: &[LogGroupMember], host: &String) -> (res: Vec<LogGroupMember>)
    ensures
        members_view(res@) == members_view(members@).filter(on_host(host@)),
{
    let ghost ms = members_view(members@);
    let mut res: Vec<LogGroupMember> = Vec::new();
    let mut i: usize = 0;
    while i < members.len()
        invariant
            0 <= i <= members.len(),
            ms == members_view(members@),
            members_view(res@) == ms.take(i as int).filter(on_host(host@)),
        decreases members.len() - i,
    {
        proof {
            assert(ms.take(i + 1) =~= ms.take(i as int).push(members@[i as int]@));
            lemma_filter_push(ms.take(i as int), members@[i as int]@, on_host(host@));
        }
        if members[i].member_host == *host {
            let ghost before = res@;
            res.push(copy_member(&members[i]));
            assert(members_view(res@) =~= members_view(before).push(members@[i as int]@));
        } else {
            assert(members_view(res@) =~= ms.take(i + 1).filter(on_host(host@)));
        }
        i = i + 1;
    }
    assert(ms.take(members.len() as int) =~= ms);
    res
}

/// The contents of a host's member list.
pub open spec fn host_entries_view(v: Seq<(String, Vec<LogGroupMember>)>) -> Seq<(Seq<char>, Seq<MemberView>)> {
    v.map_values(|e: (String, Vec<LogGroupMember>)| (e.0@, members_view(e.1@)))
}

/// Groups `members` by host: each host in order of first occurrence, with its
/// members in order.
pub fn host_members(members: &[LogGroupMember]) -> (res: Vec<(String, Vec<LogGroupMember>)>)
    ensures
        host_entries_view(res@) == host_groups(members_view(members@)),
{
    let ghost ms = members_view(members@);
    let mut hosts: Vec<String> = Vec::new();
    let mut i: usize = 0;
    while i < members.len()
        invariant
            0 <= i <= members.len(),
            ms == members_view(members@),
            hosts.deep_view() == ms.take(i as int).map_values(|m: MemberView| m.member_host),
        decreases members.len() - i,
    {
        let ghost before = hosts.deep_view();
        hosts.push(copy_string(&members[i].member_host));
        assert(hosts.deep_view() =~= before.push(members@[i as int]@.member_host));
        assert(ms.take(i + 1).map_values(|m: MemberView| m.member_host) =~= before.push(members@[i as int]@.member_host));
        i = i + 1;
    }
    assert(ms.take(members.len() as int) =~= ms);
    let unique = unique_strings(&hosts);
    let mut res: Vec<(String, Vec<LogGroupMember>)> = Vec::new();
    let mut j: usize = 0;
    while j < unique.len()
        invariant
            0 <= j <= unique.len(),
            ms == members_view(members@),
            unique.deep_view() == hosts_of(ms),
            host_entries_view(res@) == host_groups(ms).take(j as int),
        decreases unique.len() - j,
    {
        let group = members_on_host(members, &unique[j]);
        let ghost before = res@;
        res.push((copy_string(&unique[j]), group));
        assert(host_entries_view(res@) =~= host_entries_view(before).push((unique@[j as int]@, ms.filter(on_host(unique@[j as int]@)))));
        assert(host_groups(ms).take(j + 1) =~= host_groups(ms).take(j as int).push(host_groups(ms)[j as int]));
        j = j + 1;
    }
    assert(host_groups(ms).take(unique.len() as int) =~= host_groups(ms));
    res
}

// ---------------------------------------------------------------------------
// Start commands of the log processes.
// ---------------------------------------------------------------------------

/// A log process to start: its group's member list and the member itself.
#[derive(PartialEq, Eq, Hash, Debug, Clone)]
pub struct LogCmdItems {
    pub group_members_config: String,
    pub log_member: LogGroupMember,
}

/// The contents of a start command item.
pub struct CmdItemView {
    pub group_members_config: Seq<char>,
    pub log_member: MemberView,
}

impl View for LogCmdItems {
    type V = CmdItemView;

    open spec fn view(&self) -> CmdItemView {
        CmdItemView { group_members_config: self.group_members_config@, log_member: self.log_member@ }
    }
}

/// The start command item of member `m` among `ms`.
pub open spec fn cmd_item_of(ms: Seq<MemberView>, m: MemberView) -> CmdItemView {
    CmdItemView { group_members_config: group_config_text(ms, m.group_id), log_member: m }
}

/// The start command items of `ms`, grouped by host in order of first occurrence.
pub open spec fn start_cmds_of(ms: Seq<MemberView>) -> Seq<(Seq<char>, Seq<CmdItemView>)> {
    host_groups(ms).map_values(|e: (Seq<char>, Seq<MemberView>)| (e.0, e.1.map_values(|m: MemberView| cmd_item_of(ms, m))))
}

/// The contents of per-host start command lists.
pub open spec fn cmd_entries_view(v: Seq<(String, Vec<LogCmdItems>)>) -> Seq<(Seq<char>, Seq<CmdItemView>)> {
    v.map_values(|e: (String, Vec<LogCmdItems>)| (e.0@, e.1@.map_values(|c: LogCmdItems| c@)))
}

/// The group of any member of `ms` has an entry in `member_config_entries(ms)`
/// whose text is that group's member list.
proof fn lemma_config_entry_of_member(ms: Seq<MemberView>, m: MemberView)
    requires
        ms.contains(m),
    ensures
        entry_index(member_config_entries(ms), m.group_id) >= 0,
        member_config_entries(ms)[entry_index(member_config_entries(ms), m.group_id)].1 == group_config_text(ms, m.group_id),
{
    let e = member_config_entries(ms);
    let gids = ms.map_values(|x: MemberView| x.group_id);
    lemma_dedup(gids);
    let i = choose|i: int| 0 <= i < ms.len() && ms[i] == m;
    assert(gids[i] == m.group_id);
    assert(gids.contains(m.group_id));
    assert(group_ids_of(ms).contains(m.group_id));
    let p = choose|p: int| 0 <= p < group_ids_of(ms).len() && group_ids_of(ms)[p] == m.group_id;
    assert(e[p].0 == m.group_id);
    lemma_entry_index(e, m.group_id);
}

/// Builds the start command items of `members`, grouped by host.
pub fn start_cmd_items(members: &Vec<LogGroupMember>) -> (res: Vec<(String, Vec<LogCmdItems>)>)
    ensures
        cmd_entries_view(res@) == start_cmds_of(members_view(members@)),
{
    let ghost ms = members_view(members@);
    let config = member_config(members.as_slice());
    let hosts = host_members(members.as_slice());
    let mut res: Vec<(String, Vec<LogCmdItems>)> = Vec::new();
    let mut j: usize = 0;
    while j < hosts.len()
        invariant
            0 <= j <= hosts.len(),
            ms == members_view(members@),
            index_map_entries(config) == member_config_entries(ms),
            host_entries_view(hosts@) == host_groups(ms),
            cmd_entries_view(res@) == start_cmds_of(ms).take(j as int),
        decreases hosts.len() - j,
    {
        let ghost hv = host_entries_view(hosts@)[j as int];
        let host_group = &hosts[j].1;
        let mut items: Vec<LogCmdItems> = Vec::new();
        let mut k: usize = 0;
        while k < host_group.len()
            invariant
                0 <= k <= host_group.len(),
                ms == members_view(members@),
                index_map_entries(config) == member_config_entries(ms),
                hv.1 == members_view(host_group@),
                hv.1 == ms.filter(on_host(hv.0)),
                items@.map_values(|c: LogCmdItems| c@) == hv.1.take(k as int).map_values(|m: MemberView| cmd_item_of(ms, m)),
            decreases host_group.len() - k,
        {
            let m = &host_group[k];
            proof {
                assert(hv.1[k as int] == m@);
                ms.lemma_filter_contains_rev(on_host(hv.0), m@);
                lemma_config_entry_of_member(ms, m@);
            }
            let cfg = index_map_get(&config, m.group_id).unwrap();
            let ghost before = items@;
            items.push(LogCmdItems { group_members_config: cfg, log_member: copy_member(m) });
            assert(items@.map_values(|c: LogCmdItems| c@) =~= before.map_values(|c: LogCmdItems| c@).push(cmd_item_of(ms, m@)));
            assert(hv.1.take(k + 1) =~= hv.1.take(k as int).push(m@));
            assert(hv.1.take(k + 1).map_values(|x: MemberView| cmd_item_of(ms, x)) =~= hv.1.take(k as int).map_values(|x: MemberView| cmd_item_of(ms, x)).push(cmd_item_of(ms, m@)));
            k = k + 1;
        }
        assert(hv.1.take(host_group.len() as int) =~= hv.1);
        let ghost before = res@;
        res.push((copy_string(&hosts[j].0), items));
        proof {
            assert(host_groups(ms)[j as int] == hv);
            assert(start_cmds_of(ms)[j as int] == (hv.0, hv.1.map_values(|x: MemberView| cmd_item_of(ms, x))));
            assert(cmd_entries_view(res@) =~= cmd_entries_view(before).push(start_cmds_of(ms)[j as int]));
            assert(start_cmds_of(ms).take(j + 1) =~= start_cmds_of(ms).take(j as int).push(start_cmds_of(ms)[j as int]));
        }
        j = j + 1;
    }
    assert(start_cmds_of(ms).take(hosts.len() as int) =~= start_cmds_of(ms));
    res
}

// ---------------------------------------------------------------------------
// The log service.
// ---------------------------------------------------------------------------

/// The number of groups needed for `hosts` hosts with `r` replicas each:
/// one when there are fewer hosts than replicas, else hosts / r rounded up.
pub open spec fn group_count_of(hosts: nat, r: nat) -> nat {
    if hosts < r {
        1
    } else if hosts % r == 0 {
        hosts / r
    } else {
        hosts / r + 1
    }
}

/// Computes `group_count_of`.
pub fn group_count(host_num: usize, r: usize) -> (g: usize)
    requires
        r > 0,
    ensures
        g == group_count_of(host_num as nat, r as nat),
{
    if host_num < r {
        1
    } else {
        let rem = host_num % r;
        if rem == 0 {
            host_num / r
        } else {
            assert(r >= 2) by {
                if r == 1 {
                    assert(host_num % 1 == 0) by (nonlinear_arith);
                }
            }
            assert(host_num / r < usize::MAX) by (nonlinear_arith)
                requires
                    r >= 2,
                    host_num <= usize::MAX,
            ;
            host_num / r + 1
        }
    }
}

/// The flattened members of a layout, group after group.
pub proof fn lemma_flatten_push(s: Seq<Seq<MemberView>>, g: int)
    requires
        0 <= g < s.len(),
    ensures
        s.take(g + 1).flatten() == s.take(g).flatten() + s[g],
{
    s.take(g + 1).lemma_flatten_and_flatten_alt_are_equivalent();
    s.take(g).lemma_flatten_and_flatten_alt_are_equivalent();
    assert(s.take(g + 1).drop_last() =~= s.take(g));
}

/// Copies the members of all groups, group after group.
pub fn flatten_groups(groups: &Vec<Vec<LogGroupMember>>) -> (res: Vec<LogGroupMember>)
    ensures
        members_view(res@) == groups_view(groups@).flatten(),
{
    let ghost gv = groups_view(groups@);
    let mut res: Vec<LogGroupMember> = Vec::new();
    let mut g: usize = 0;
    while g < groups.len()
        invariant
            0 <= g <= groups.len(),
            gv == groups_view(groups@),
            members_view(res@) == gv.take(g as int).flatten(),
        decreases groups.len() - g,
    {
        let group = &groups[g];
        let ghost start = members_view(res@);
        let mut k: usize = 0;
        while k < group.len()
            invariant
                0 <= k <= group.len(),
                gv == groups_view(groups@),
                g < groups.len(),
                group == groups@[g as int],
                members_view(res@) == start + gv[g as int].take(k as int),
            decreases group.len() - k,
        {
            let ghost before = res@;
            res.push(copy_member(&group[k]));
            assert(members_view(res@) =~= members_view(before).push(group@[k as int]@));
            assert(gv[g as int].take(k + 1) =~= gv[g as int].take(k as int).push(group@[k as int]@));
            k = k + 1;
        }
        proof {
            assert(gv[g as int].take(group.len() as int) =~= gv[g as int]);
            lemma_flatten_push(gv, g as int);
        }
        g = g + 1;
    }
    assert(gv.take(groups.len() as int) =~= gv);
    res
}

/// The hosts of a node list, in order.
pub open spec fn node_hosts(nodes: Seq<LogServiceNode>) -> Seq<Seq<char>> {
    nodes.map_values(|n: LogServiceNode| n.host@)
}

/// The distinct hosts of a node list, each at its first occurrence.
pub fn unique_node_hosts(nodes: &Vec<LogServiceNode>) -> (res: Vec<String>)
    ensures
        res.deep_view() == dedup(node_hosts(nodes@)),
{
    let mut hosts: Vec<String> = Vec::new();
    let mut i: usize = 0;
    while i < nodes.len()
        invariant
            0 <= i <= nodes.len(),
            hosts.deep_view() == node_hosts(nodes@).take(i as int),
        decreases nodes.len() - i,
    {
        let ghost before = hosts.deep_view();
        hosts.push(copy_string(&nodes[i].host));
        assert(hosts.deep_view() =~= before.push(nodes@[i as int].host@));
        assert(node_hosts(nodes@).take(i + 1) =~= before.push(nodes@[i as int].host@));
        i = i + 1;
    }
    assert(node_hosts(nodes@).take(nodes.len() as int) =~= node_hosts(nodes@));
    unique_strings(&hosts)
}

impl LogService {
    /// The replicas per group: the configured number, or three.
    pub open spec fn replica_count(self) -> nat {
        match self.replica {
            Some(r) => r as nat,
            None => LOG_SRV_REPLICA_NUM as nat,
        }
    }

    /// The number of log groups.
    pub open spec fn group_total(self) -> nat {
        group_count_of(dedup(node_hosts(self.nodes@)).len(), self.replica_count())
    }

    /// The members of every group: slots clamp to the last node, health
    /// URLs start with `http://`.
    pub open spec fn layout_spec(self) -> Seq<Seq<MemberView>> {
        layout(self.nodes@, self.replica_count(), false, "http://"@, self.group_total())
    }

    /// The group layout can be computed without a panic.
    pub open spec fn layout_ready(self) -> bool {
        layout_ok(self.nodes@, self.replica_count(), false, self.group_total())
    }

    /// The distinct hosts of the log service, in order of first occurrence.
    pub fn log_host_unique(&self) -> (res: Vec<String>)
        ensures
            res.deep_view() == dedup(node_hosts(self.nodes@)),
    {
        unique_node_hosts(&self.nodes)
    }

    /// The configured readiness settings, or the defaults.
    pub fn readiness_opts(&self) -> (r: LogReadiness)
        ensures
            self.readiness is Some ==> r == self.readiness->0,
            self.readiness is None ==> r.timeout_sec == 300 && r.delay_ms is None && r.success_threshold == Some(3usize),
    {
        match &self.readiness {
            Some(readiness) => LogReadiness {
                timeout_sec: readiness.timeout_sec,
                delay_ms: readiness.delay_ms,
                success_threshold: readiness.success_threshold,
            },
            None => LogReadiness::default(),
        }
    }

    /// Whether the group layout can be computed without a panic.
    pub fn layout_ready_check(&self) -> (ok: bool)
        ensures
            ok == self.layout_ready(),
    {
        let r = self.log_replica();
        if r == 0 {
            return false;
        }
        let groups = self.group();
        layout_check(&self.nodes, r, false, groups)
    }

    /// The replicas per group: the configured number, or three.
    pub fn log_replica(&self) -> (r: usize)
        ensures
            r == self.replica_count(),
    {
        match self.replica {
            Some(replica_num) => replica_num as usize,
            None => LOG_SRV_REPLICA_NUM,
        }
    }

    /// The number of log groups over the distinct hosts.
    pub fn group(&self) -> (g: usize)
        requires
            self.replica_count() > 0,
        ensures
            g == self.group_total(),
    {
        let host_num = self.log_host_unique().len();
        let group_member = self.log_replica();
        group_count(host_num, group_member)
    }

    /// The node indices of a group's slots when the group starts at node
    /// index `start`: consecutive indices, clamped to the last node.
    pub fn gen_log_node_ids(&self, start: usize) -> (ids: Vec<usize>)
        requires
            self.replica_count() > 0 ==> self.nodes.len() > 0,
            self.nodes.len() + self.replica_count() <= usize::MAX,
        ensures
            ids@.len() == self.replica_count(),
            forall|idx: int| 0 <= idx < ids@.len() ==> ids@[idx] as int
                == #[trigger] node_ids_spec(self.nodes.len() as nat, self.replica_count(), false, start as nat)[idx],
    {
        let r = self.log_replica();
        if r == 0 {
            Vec::new()
        } else {
            layout_node_ids(self.nodes.len(), r, false, start)
        }
    }

    /// The members of every log group, keyed by group id.
    pub fn group_members(&self) -> (m: HashMap<usize, Vec<LogGroupMember>>)
        requires
            self.layout_ready(),
        ensures
            m@.dom() =~= Set::new(|g: usize| g < self.group_total()),
            forall|g: usize| g < self.group_total() ==> members_view(#[trigger] m@[g]@) == self.layout_spec()[g as int],
    {
        let groups = self.group();
        let r = self.log_replica();
        let layout = layout_members(&self.nodes, r, false, "http://", groups);
        proof {
            reveal_strlit("http://");
        }
        let ghost lv = layout@;
        let m = groups_to_map(layout);
        proof {
            assert(groups_view(lv).len() == lv.len());
            assert forall|g: usize| g < self.group_total() implies members_view(#[trigger] m@[g]@) == self.layout_spec()[g as int] by {
                assert(groups_view(lv)[g as int] == members_view(lv[g as int]@));
            }
        }
        m
    }

    /// All members of all groups, group after group.
    pub fn group_member_as_vec(&self) -> (res: Vec<LogGroupMember>)
        requires
            self.layout_ready(),
        ensures
            members_view(res@) == self.layout_spec().flatten(),
    {
        let groups = self.group();
        let r = self.log_replica();
        let layout = layout_members(&self.nodes, r, false, "http://", groups);
        proof {
            reveal_strlit("http://");
        }
        flatten_groups(&layout)
    }

    /// The `host:port` list of each log group of `members`, keyed by group id.
    pub fn group_member_config(&self, members: &[LogGroupMember]) -> (m: IndexMap<usize, String>)
        ensures
            index_map_entries(m) == member_config_entries(members_view(members@)),
    {
        member_config(members)
    }

    /// The members of `all_members` grouped by host, hosts in order of first occurrence.
    pub fn host_members(&self, all_members: &[LogGroupMember]) -> (res: Vec<(String, Vec<LogGroupMember>)>)
        ensures
            host_entries_view(res@) == host_groups(members_view(all_members@)),
    {
        host_members(all_members)
    }

    /// The start command items of every log process, grouped by host.
    pub fn log_start_cmd(&self) -> (res: Vec<(String, Vec<LogCmdItems>)>)
        requires
            self.layout_ready(),
        ensures
            cmd_entries_view(res@) == start_cmds_of(self.layout_spec().flatten()),
    {
        let all_members = self.group_member_as_vec();
        start_cmd_items(&all_members)
    }
}

impl LogService {
    /// The ports of the nodes in host order.
    pub open spec fn ports_in_host_order(self) -> Seq<u16> {
        let order = host_order(hosts_of_nodes(self.nodes@), self.nodes@.len() as nat);
        Seq::new(self.nodes@.len(), |k: int| self.nodes@[order[k]].port)
    }

    /// The groups read off the disk matrix, keyed by group id.
    pub open spec fn memberships_spec(self) -> Map<usize, Seq<MemberView>> {
        final_state(disk_matrix(self.nodes@), self.ports_in_host_order(), self.replica_count()).members
    }

    /// The groups can be read off the disk matrix without a panic: there are
    /// nodes, few enough to be counted in an `i32`, and no port or counter overflows.
    pub open spec fn memberships_ready(self) -> bool {
        &&& self.nodes@.len() > 0
        &&& self.nodes@.len() <= i32::MAX
        &&& final_state(disk_matrix(self.nodes@), self.ports_in_host_order(), self.replica_count()).ok
    }

    /// The disks of the nodes as a matrix: a row per disk position up to the
    /// largest number of disks of a node, a column per node in host order,
    /// and the empty cell where a node has fewer disks.
    pub fn node_and_disk_matrix(&self) -> (m: Vec<Vec<NodeDiskIndexPair>>)
        requires
            self.nodes@.len() > 0,
        ensures
            matrix_view(m@) == disk_matrix(self.nodes@),
    {
        build_disk_matrix(&self.nodes)
    }

    /// The log groups laid over every disk: the disk matrix read row after
    /// row, each cell a member, `replica + 1` members to a group, each row's
    /// members stored under the group id reached at its end; an empty cell
    /// ends the reading.
    pub fn memberships(&self) -> (m: HashMap<usize, Vec<LogGroupMember>>)
        requires
            self.memberships_ready(),
        ensures
            groups_match(m@, self.memberships_spec()),
    {
        let matrix = self.node_and_disk_matrix();
        let ports = ports_in_order(&self.nodes);
        let r = self.log_replica();
        proof {
            assert(ports@ =~= self.ports_in_host_order());
            lemma_host_order_sorted(hosts_of_nodes(self.nodes@), self.nodes@.len() as nat);
            let mv = matrix_view(matrix@);
            assert forall|i: int, j: int| 0 <= i < matrix@.len() && 0 <= j < matrix@[i]@.len() && matrix@[i]@[j]@ != default_pair()
                implies 0 <= #[trigger] matrix@[i]@[j]@.host_idx < ports@.len() by {
                assert(mv[i] == matrix@[i]@.map_values(|p: NodeDiskIndexPair| p@));
                assert(mv[i][j] == matrix@[i]@[j]@);
                assert(j < self.nodes@.len());
                assert((j as i32) as int == j);
            }
        }
        read_memberships(&matrix, &ports, r)
    }
}

/// Moves a list of groups into a map keyed by position.
pub fn groups_to_map(groups: Vec<Vec<LogGroupMember>>) -> (m: HashMap<usize, Vec<LogGroupMember>>)
    ensures
        m@.dom() =~= Set::new(|g: usize| g < groups@.len()),
        forall|g: usize| g < groups@.len() ==> (#[trigger] m@[g])@ == groups@[g as int]@,
{
    let ghost orig = groups@;
    let mut groups = groups;
    let mut m: HashMap<usize, Vec<LogGroupMember>> = HashMap::new();
    while groups.len() > 0
        invariant
            groups@ == orig.take(groups@.len() as int),
            groups@.len() <= orig.len(),
            m@.dom() =~= Set::new(|g: usize| groups@.len() <= g < orig.len()),
            forall|g: usize| groups@.len() <= g < orig.len() ==> (#[trigger] m@[g])@ == orig[g as int]@,
        decreases groups@.len(),
    {
        let k = groups.len() - 1;
        let last = groups.pop().unwrap();
        assert(last == orig[k as int]);
        m.insert(k, last);
        assert(orig.take(k as int) =~= groups@);
    }
    m
}

} // verus!
